//! The e-mail channel's decisions: its configuration, its own addresses, what a
//! poll searches for and fetches, what each fetched e-mail becomes, and how a reply
//! is addressed. The IMAP and SMTP sessions run around these decisions.

use vstd::prelude::*;
use vstd::string::*;
use vstd::utf8::*;

use crate::agent::utils::{byte_len, byte_substring};
use crate::channels::email::{
    cycle_after, holds_marker, is_allowed, is_allowed_spec, is_missing_mailbox_error, is_stale_imap_error,
    missing_mailbox_markers, normalize_address, normalize_spec, processed_after, reconnect_markers,
    remember_processed_uid, reply_subject, reply_subject_spec, UidSet,
};
use crate::channels::email_parse::{
    auth_header_matches, check_authentication_results, dkim_pattern, email_fields_of, extract_text_body, opt_view,
    parses_as_email, read_email, spf_pattern, text_body_spec, EmailFields, EmailFieldsView,
};
use crate::channels::messages::{InboundMessage, MetaValue, Metadata, OutboundMessage};
use crate::text::{
    chars_of, decimal, decimal_chars, decimal_string, push_all, push_str, string_of, lowercase_spec,
    to_lowercase_str, trim_spec, trim_str,
};

verus! {

broadcast use vstd::seq_lib::group_to_multiset_ensures;

/// IMAP settings.
pub struct ImapConfig {
    pub host: String,
    pub port: u16,
    pub username: String,
    pub password: String,
    /// The mailbox polled; `INBOX` when empty.
    pub mailbox: String,
    pub use_ssl: bool,
    pub use_tls: bool,
}

/// SMTP settings.
pub struct SmtpConfig {
    pub host: String,
    pub port: u16,
    pub username: String,
    pub password: String,
    /// The sender address of replies; the username when empty.
    pub from_address: String,
    pub use_ssl: bool,
    pub use_tls: bool,
}

/// E-mail channel configuration.
pub struct EmailConfig {
    pub enabled: bool,
    /// The user's explicit permission to read and send e-mail.
    pub consent_granted: bool,
    pub imap: ImapConfig,
    pub smtp: SmtpConfig,
    /// Whether replies to received e-mail are sent automatically.
    pub auto_reply_enabled: bool,
    pub poll_interval_seconds: u64,
    /// Whether fetched e-mail is flagged as seen.
    pub mark_seen: bool,
    /// The most bytes of a body passed on.
    pub max_body_chars: usize,
    /// The prefix of a reply's subject.
    pub subject_prefix: String,
    /// Senders that may write to the bot; empty admits everyone.
    pub allow_from: Vec<String>,
    pub verify_spf: bool,
    pub verify_dkim: bool,
}

/// `s` with `x` added at the end, unless `x` is empty or already there.
pub open spec fn add_unique(s: Seq<Seq<char>>, x: Seq<char>) -> Seq<Seq<char>> {
    if x.len() == 0 || s.contains(x) {
        s
    } else {
        s.push(x)
    }
}

/// The bot's own addresses: the normalized sender address, SMTP username and IMAP
/// username, without empty ones or repeats, in that order.
pub open spec fn self_addresses_spec(c: EmailConfig) -> Seq<Seq<char>> {
    add_unique(
        add_unique(add_unique(Seq::empty(), normalize_spec(c.smtp.from_address@)), normalize_spec(c.smtp.username@)),
        normalize_spec(c.imap.username@),
    )
}

/// The bot's own addresses are distinct and none is empty.
pub proof fn law_self_addresses_distinct(c: EmailConfig)
    ensures
        self_addresses_spec(c).no_duplicates(),
        forall|i: int| 0 <= i < self_addresses_spec(c).len() ==> #[trigger] self_addresses_spec(c)[i].len() > 0,
{
    let s0 = Seq::<Seq<char>>::empty();
    let s1 = add_unique(s0, normalize_spec(c.smtp.from_address@));
    let s2 = add_unique(s1, normalize_spec(c.smtp.username@));
    let s3 = add_unique(s2, normalize_spec(c.imap.username@));
    lemma_add_unique(s0, normalize_spec(c.smtp.from_address@));
    lemma_add_unique(s1, normalize_spec(c.smtp.username@));
    lemma_add_unique(s2, normalize_spec(c.imap.username@));
}

/// Adding with `add_unique` keeps a list distinct and free of empty entries.
proof fn lemma_add_unique(s: Seq<Seq<char>>, x: Seq<char>)
    requires
        s.no_duplicates(),
        forall|i: int| 0 <= i < s.len() ==> #[trigger] s[i].len() > 0,
    ensures
        add_unique(s, x).no_duplicates(),
        forall|i: int| 0 <= i < add_unique(s, x).len() ==> #[trigger] add_unique(s, x)[i].len() > 0,
{
    if !(x.len() == 0 || s.contains(x)) {
        let t = s.push(x);
        assert forall|i: int, j: int| 0 <= i < t.len() && 0 <= j < t.len() && i != j implies t[i] != t[j] by {
            if i == s.len() as int {
                assert(t[j] == s[j]);
            } else if j == s.len() as int {
                assert(t[i] == s[i]);
            }
        }
    }
}

/// The views of a list of strings.
pub open spec fn text_views(v: Seq<String>) -> Seq<Seq<char>> {
    Seq::new(v.len(), |i: int| v[i]@)
}

/// Adds `x` to the list unless it is empty or already there.
fn push_unique(v: &mut Vec<String>, x: String)
    ensures
        text_views(final(v)@) == add_unique(text_views(old(v)@), x@),
{
    if x.as_str().is_empty() {
        return;
    }
    let mut i: usize = 0;
    while i < v.len()
        invariant
            i <= v@.len(),
            forall|j: int| 0 <= j < i ==> v@[j]@ != x@,
        decreases v@.len() - i,
    {
        if v[i] == x {
            assert(text_views(v@)[i as int] == x@);
            return;
        }
        i = i + 1;
    }
    let ghost before = v@;
    v.push(x);
    assert(text_views(v@) =~= text_views(before).push(x@));
}

/// The bot's own addresses (see `self_addresses_spec`); e-mail from them is ignored.
pub fn collect_self_addresses(config: &EmailConfig) -> (r: Vec<String>)
    ensures
        text_views(r@) == self_addresses_spec(*config),
{
    let mut r: Vec<String> = Vec::new();
    assert(text_views(r@) =~= Seq::<Seq<char>>::empty());
    push_unique(&mut r, normalize_address(config.smtp.from_address.as_str()));
    push_unique(&mut r, normalize_address(config.smtp.username.as_str()));
    push_unique(&mut r, normalize_address(config.imap.username.as_str()));
    r
}

/// The seconds between polls: the configured interval, at least 5.
pub fn poll_interval_secs(config: &EmailConfig) -> (s: u64)
    ensures
        s == if config.poll_interval_seconds < 5 { 5 } else { config.poll_interval_seconds },
{
    if config.poll_interval_seconds < 5 {
        5
    } else {
        config.poll_interval_seconds
    }
}

/// How the channel starts.
pub enum StartPlan {
    /// Without the user's consent the channel stays off.
    Disabled,
    /// Poll every `poll_secs` seconds; `warn_unverified` when neither SPF nor DKIM
    /// is checked, so that spoofed senders would be accepted.
    Poll { poll_secs: u64, warn_unverified: bool },
}

/// How the channel starts (see `StartPlan`).
pub fn start_plan(config: &EmailConfig) -> (r: StartPlan)
    ensures
        !config.consent_granted ==> r is Disabled,
        config.consent_granted ==> (r == (StartPlan::Poll {
            poll_secs: if config.poll_interval_seconds < 5 { 5 } else { config.poll_interval_seconds },
            warn_unverified: !config.verify_dkim && !config.verify_spf,
        })),
{
    if !config.consent_granted {
        return StartPlan::Disabled;
    }
    StartPlan::Poll {
        poll_secs: poll_interval_secs(config),
        warn_unverified: !config.verify_dkim && !config.verify_spf,
    }
}

/// The mailbox polled: the configured one, `INBOX` when none is configured.
pub fn mailbox_name(config: &EmailConfig) -> (r: &str)
    ensures
        r@ == if config.imap.mailbox@.len() == 0 { "INBOX"@ } else { config.imap.mailbox@ },
{
    if config.imap.mailbox.as_str().is_empty() {
        "INBOX"
    } else {
        config.imap.mailbox.as_str()
    }
}

/// What a poll searches for and how it treats what it finds.
pub struct FetchQuery {
    /// The IMAP search criteria.
    pub criteria: String,
    /// Whether fetched e-mail is flagged as seen.
    pub mark_seen: bool,
    /// Whether e-mail handled in earlier polls is skipped.
    pub dedupe: bool,
    /// The most e-mails taken (the newest); 0 takes all.
    pub limit: usize,
}

/// The query of a regular poll: unseen e-mail, skipping what earlier polls
/// handled, with no limit.
pub fn new_messages_query(config: &EmailConfig) -> (q: FetchQuery)
    ensures
        q.criteria@ == "UNSEEN"@,
        q.mark_seen == config.mark_seen,
        q.dedupe,
        q.limit == 0,
{
    FetchQuery { criteria: String::from_str("UNSEEN"), mark_seen: config.mark_seen, dedupe: true, limit: 0 }
}

/// A calendar date.
pub struct ImapDate {
    pub year: i32,
    /// 1 to 12.
    pub month: u32,
    /// 1 to 31.
    pub day: u32,
}

impl ImapDate {
    /// The month and day are in range.
    pub open spec fn wf(self) -> bool {
        1 <= self.month <= 12 && 1 <= self.day <= 31
    }

    /// Whether the month and day are in range (see `wf`).
    pub fn is_valid(&self) -> (b: bool)
        ensures
            b == self.wf(),
    {
        1 <= self.month && self.month <= 12 && 1 <= self.day && self.day <= 31
    }

    /// The date is before `other`.
    pub open spec fn before(self, other: ImapDate) -> bool {
        ||| self.year < other.year
        ||| (self.year == other.year && self.month < other.month)
        ||| (self.year == other.year && self.month == other.month && self.day < other.day)
    }
}

/// The English abbreviation of a month (1 to 12).
pub open spec fn month_abbrev(m: int) -> Seq<char> {
    if m == 1 {
        "Jan"@
    } else if m == 2 {
        "Feb"@
    } else if m == 3 {
        "Mar"@
    } else if m == 4 {
        "Apr"@
    } else if m == 5 {
        "May"@
    } else if m == 6 {
        "Jun"@
    } else if m == 7 {
        "Jul"@
    } else if m == 8 {
        "Aug"@
    } else if m == 9 {
        "Sep"@
    } else if m == 10 {
        "Oct"@
    } else if m == 11 {
        "Nov"@
    } else {
        "Dec"@
    }
}

/// A number written with at least two digits.
pub open spec fn two_digits(n: nat) -> Seq<char> {
    if n < 10 {
        "0"@ + decimal(n)
    } else {
        decimal(n)
    }
}

/// A year written in decimal, with a `-` before a negative year.
pub open spec fn year_text(y: int) -> Seq<char> {
    if y < 0 {
        "-"@ + decimal((-y) as nat)
    } else {
        decimal(y as nat)
    }
}

/// A date as IMAP writes it: `DD-Mon-YYYY`.
pub open spec fn imap_date_spec(d: ImapDate) -> Seq<char> {
    two_digits(d.day as nat) + "-"@ + month_abbrev(d.month as int) + "-"@ + year_text(d.year as int)
}

/// The abbreviation of a month (1 to 12).
fn month_name(m: u32) -> (r: &'static str)
    requires
        1 <= m <= 12,
    ensures
        r@ == month_abbrev(m as int),
{
    if m == 1 {
        "Jan"
    } else if m == 2 {
        "Feb"
    } else if m == 3 {
        "Mar"
    } else if m == 4 {
        "Apr"
    } else if m == 5 {
        "May"
    } else if m == 6 {
        "Jun"
    } else if m == 7 {
        "Jul"
    } else if m == 8 {
        "Aug"
    } else if m == 9 {
        "Sep"
    } else if m == 10 {
        "Oct"
    } else if m == 11 {
        "Nov"
    } else {
        "Dec"
    }
}

/// A date as IMAP writes it (see `imap_date_spec`).
pub fn format_imap_date(date: &ImapDate) -> (r: String)
    requires
        date.wf(),
    ensures
        r@ == imap_date_spec(*date),
{
    let mut v: Vec<char> = Vec::new();
    if date.day < 10 {
        v.push('0');
    }
    let d = decimal_chars(date.day as u64);
    push_all(&mut v, d.as_slice());
    proof {
        reveal_strlit("0");
        if date.day < 10 {
            assert(v@ =~= "0"@ + decimal(date.day as nat));
        } else {
            assert(v@ =~= decimal(date.day as nat));
        }
    }
    push_str(&mut v, "-");
    push_str(&mut v, month_name(date.month));
    push_str(&mut v, "-");
    let ghost before_year = v@;
    if date.year < 0 {
        v.push('-');
        let y: i64 = date.year as i64;
        let neg: u64 = (0 - y) as u64;
        let ds = decimal_chars(neg);
        push_all(&mut v, ds.as_slice());
        proof {
            reveal_strlit("-");
            assert(v@ =~= before_year + ("-"@ + decimal((-(date.year as int)) as nat)));
        }
    } else {
        let ds = decimal_chars(date.year as u64);
        push_all(&mut v, ds.as_slice());
    }
    assert(v@ =~= imap_date_spec(*date));
    string_of(v.as_slice())
}

/// The query of e-mail received between two dates: none when the end is not after
/// the start; otherwise `SINCE start BEFORE end`, without flagging or skipping, and
/// at least one e-mail.
pub fn between_dates_query(start: &ImapDate, end: &ImapDate, limit: usize) -> (r: Option<FetchQuery>)
    requires
        start.wf(),
        end.wf(),
    ensures
        !start.before(*end) ==> r is None,
        start.before(*end) ==> (r matches Some(q) && q.criteria@ == "SINCE "@ + imap_date_spec(*start)
            + " BEFORE "@ + imap_date_spec(*end) && !q.mark_seen && !q.dedupe && q.limit == (if limit < 1 {
            1
        } else {
            limit
        })),
{
    let is_before = start.year < end.year || (start.year == end.year && start.month < end.month) || (start.year
        == end.year && start.month == end.month && start.day < end.day);
    if !is_before {
        return None;
    }
    let mut v = chars_of("SINCE ");
    let a = format_imap_date(start);
    push_str(&mut v, a.as_str());
    push_str(&mut v, " BEFORE ");
    let b = format_imap_date(end);
    push_str(&mut v, b.as_str());
    Some(FetchQuery {
        criteria: string_of(v.as_slice()),
        mark_seen: false,
        dedupe: false,
        limit: if limit < 1 {
            1
        } else {
            limit
        },
    })
}

/// The ids are in ascending order.
pub open spec fn ascending(s: Seq<u32>) -> bool {
    forall|i: int, j: int| 0 <= i < j < s.len() ==> s[i] <= s[j]
}

/// The newest `limit` ids of an ascending list (all of them when `limit` is 0).
pub open spec fn newest(s: Seq<u32>, limit: nat) -> Seq<u32> {
    if limit > 0 && s.len() > limit {
        s.subrange(s.len() - limit, s.len() as int)
    } else {
        s
    }
}

/// A poll with a limit takes at most that many ids, and they are the newest: the
/// end of the ascending list.
pub proof fn law_newest_within_limit(s: Seq<u32>, limit: nat)
    ensures
        limit > 0 ==> newest(s, limit).len() <= limit,
        newest(s, limit).len() <= s.len(),
        newest(s, limit) == s.skip(s.len() - newest(s, limit).len()),
        ascending(s) ==> ascending(newest(s, limit)),
{
    if limit > 0 && s.len() > limit {
        assert(newest(s, limit) =~= s.skip(s.len() - limit));
    } else {
        assert(s.skip(0) =~= s);
    }
}

/// The ids in ascending order.
pub fn sort_ids(ids: &[u32]) -> (r: Vec<u32>)
    ensures
        ascending(r@),
        r@.to_multiset() == ids@.to_multiset(),
{
    broadcast use vstd::seq_lib::to_multiset_insert, vstd::seq_lib::to_multiset_build;

    let mut r: Vec<u32> = Vec::new();
    let mut i: usize = 0;
    while i < ids.len()
        invariant
            i <= ids@.len(),
            ascending(r@),
            r@.to_multiset() == ids@.take(i as int).to_multiset(),
        decreases ids@.len() - i,
    {
        let x = ids[i];
        let mut p: usize = 0;
        while p < r.len() && r[p] <= x
            invariant
                p <= r@.len(),
                forall|k: int| 0 <= k < p ==> r@[k] <= x,
            decreases r@.len() - p,
        {
            p = p + 1;
        }
        let ghost before = r@;
        r.insert(p, x);
        proof {
            assert(r@ == before.insert(p as int, x));
            assert forall|a: int, b: int| 0 <= a < b < r@.len() implies r@[a] <= r@[b] by {
                if b < p {
                    assert(r@[a] == before[a] && r@[b] == before[b]);
                } else if b == p {
                    assert(r@[a] == before[a]);
                } else if a > p {
                    assert(r@[a] == before[a - 1] && r@[b] == before[b - 1]);
                } else if a == p {
                    assert(p < before.len() && before[p as int] > x);
                    assert(r@[b] == before[b - 1]);
                    assert(before[p as int] <= before[b - 1]);
                } else {
                    assert(r@[a] == before[a] && r@[b] == before[b - 1]);
                }
            }
            assert(ids@.take(i + 1) =~= ids@.take(i as int).push(x));
        }
        i = i + 1;
    }
    assert(ids@.take(ids@.len() as int) =~= ids@);
    r
}

/// The ids a poll fetches: the found ids in ascending order, only the newest
/// `limit` of them when a limit is set.
pub fn select_fetch_ids(ids: &[u32], limit: usize) -> (r: Vec<u32>)
    ensures
        exists|s: Seq<u32>|
            ascending(s) && s.to_multiset() == ids@.to_multiset() && r@ == #[trigger] newest(s, limit as nat),
{
    let sorted = sort_ids(ids);
    let n = sorted.len();
    if limit > 0 && n > limit {
        let mut r: Vec<u32> = Vec::new();
        let mut k = n - limit;
        while k < n
            invariant
                n == sorted@.len(),
                0 < limit < n,
                n - limit <= k <= n,
                r@ == sorted@.subrange(n - limit, k as int),
            decreases n - k,
        {
            r.push(sorted[k]);
            assert(sorted@.subrange(n - limit, k + 1) =~= sorted@.subrange(n - limit, k as int).push(sorted@[k as int]));
            k = k + 1;
        }
        assert(r@ == newest(sorted@, limit as nat));
        r
    } else {
        assert(sorted@ == newest(sorted@, limit as nat));
        sorted
    }
}

/// The ids written in decimal.
pub open spec fn id_texts(ids: Seq<u32>) -> Seq<Seq<char>> {
    Seq::new(ids.len(), |i: int| decimal(ids[i] as nat))
}

/// The IMAP sequence set of the ids: their decimal forms joined with `,`.
pub fn sequence_set(ids: &[u32]) -> (r: String)
    ensures
        r@ == crate::text::join_spec(id_texts(ids@), ","@),
{
    let mut parts: Vec<String> = Vec::new();
    let mut i: usize = 0;
    while i < ids.len()
        invariant
            i <= ids@.len(),
            parts@.len() == i,
            text_views(parts@) == id_texts(ids@.take(i as int)),
        decreases ids@.len() - i,
    {
        let d = crate::text::decimal_string(ids[i] as u64);
        let ghost before = parts@;
        parts.push(d);
        proof {
            assert forall|j: int| 0 <= j < i + 1 implies #[trigger] text_views(parts@)[j] == id_texts(
                ids@.take(i + 1),
            )[j] by {
                if j < i {
                    assert(parts@[j] == before[j]);
                    assert(text_views(before)[j] == id_texts(ids@.take(i as int))[j]);
                }
            }
        }
        assert(text_views(parts@) =~= id_texts(ids@.take(i + 1)));
        i = i + 1;
    }
    assert(ids@.take(ids@.len() as int) =~= ids@);
    assert(text_views(parts@) =~= crate::text::views(parts@));
    crate::text::join_strings(parts.as_slice(), ",")
}

/// The last character boundary of the bytes at or before `k`.
pub open spec fn boundary_at_most(bytes: Seq<u8>, k: int) -> int
    decreases k,
{
    if k <= 0 {
        0
    } else if is_char_boundary(bytes, k) {
        k
    } else {
        boundary_at_most(bytes, k - 1)
    }
}

/// A body cut to at most `max` bytes of UTF-8, at the last character boundary
/// there.
pub open spec fn cut_body(body: Seq<char>, max: int) -> Seq<char> {
    let bytes = encode_utf8(body);
    if bytes.len() <= max {
        body
    } else {
        decode_utf8(bytes.subrange(0, boundary_at_most(bytes, max)))
    }
}

proof fn lemma_boundary_at_most(bytes: Seq<u8>, k: int)
    requires
        valid_utf8(bytes),
        k <= bytes.len(),
    ensures
        0 <= boundary_at_most(bytes, k),
        k >= 0 ==> boundary_at_most(bytes, k) <= k,
        is_char_boundary(bytes, boundary_at_most(bytes, k)),
    decreases k,
{
    if k > 0 && !is_char_boundary(bytes, k) {
        lemma_boundary_at_most(bytes, k - 1);
    }
}

/// A cut body takes at most `max` bytes of UTF-8.
pub proof fn law_cut_body_fits(body: Seq<char>, max: int)
    requires
        max >= 0,
    ensures
        encode_utf8(cut_body(body, max)).len() <= max,
{
    let bytes = encode_utf8(body);
    encode_utf8_valid_utf8(body);
    if bytes.len() > max {
        lemma_boundary_at_most(bytes, max);
        let b = boundary_at_most(bytes, max);
        valid_utf8_split(bytes, b);
        decode_utf8_encode_utf8(bytes.subrange(0, b));
    }
}

/// A body cut to at most `max` bytes (see `cut_body`).
pub fn truncate_body(body: &str, max: usize) -> (r: String)
    ensures
        r@ == cut_body(body@, max as int),
{
    let _byte_count = body.as_bytes().len();
    proof {
        vstd::utf8::encode_utf8_valid_utf8(body@);
        vstd::utf8::is_char_boundary_start_end_of_seq(body.spec_bytes());
        vstd::utf8::encode_utf8_decode_utf8(body@);
    }
    if body.len() <= max {
        return String::from_str(body);
    }
    let mut end = max;
    while end > 0 && !body.is_char_boundary(end)
        invariant
            end <= max < byte_len(body),
            boundary_at_most(body.spec_bytes(), max as int) == boundary_at_most(body.spec_bytes(), end as int),
        decreases end,
    {
        end = end - 1;
    }
    proof {
        vstd::utf8::is_char_boundary_start_end_of_seq(body.spec_bytes());
    }
    String::from_str(byte_substring(body, 0, end))
}

/// The text passed on for an e-mail.
pub open spec fn email_content_spec(sender: Seq<char>, subject: Seq<char>, date: Seq<char>, body: Seq<char>) -> Seq<
    char,
> {
    "[EMAIL-CONTEXT] Email received.\nFrom: "@ + sender + "\nSubject: "@ + subject + "\nDate: "@ + date + "\n\n"@
        + body
}

/// The text passed on for an e-mail (see `email_content_spec`).
pub fn email_content(sender: &str, subject: &str, date: &str, body: &str) -> (r: String)
    ensures
        r@ == email_content_spec(sender@, subject@, date@, body@),
{
    let mut v = chars_of("[EMAIL-CONTEXT] Email received.\nFrom: ");
    push_str(&mut v, sender);
    push_str(&mut v, "\nSubject: ");
    push_str(&mut v, subject);
    push_str(&mut v, "\nDate: ");
    push_str(&mut v, date);
    push_str(&mut v, "\n\n");
    push_str(&mut v, body);
    string_of(v.as_slice())
}

/// An e-mail taken in by a poll.
pub struct ParsedEmail {
    /// The sender's address, lower-cased.
    pub sender: String,
    pub subject: String,
    pub message_id: String,
    /// The text passed on (see `email_content_spec`).
    pub content: String,
    /// `message_id`, `subject`, `date`, `sender_email`, and `uid` when known.
    pub metadata: Metadata,
}

/// The view of an optional text, empty when absent.
pub open spec fn text_or_empty(o: Option<Seq<char>>) -> Seq<char> {
    match o {
        Some(t) => t,
        None => Seq::empty(),
    }
}

/// The sender of an e-mail: the first `From` address, lower-cased.
pub open spec fn email_sender(f: EmailFieldsView) -> Seq<char> {
    lowercase_spec(text_or_empty(f.from_address))
}

/// The body passed on: the text body, `(empty email body)` when it is empty, cut
/// to `max` bytes.
pub open spec fn accepted_body(f: EmailFieldsView, max: int) -> Seq<char> {
    let b = text_body_spec(f);
    cut_body(if b.len() == 0 { "(empty email body)"@ } else { b }, max)
}

/// What becomes of a parsed e-mail.
pub enum EmailDecision {
    /// It has no sender: it is skipped.
    NoSender,
    /// The bot sent it: it is ignored.
    Own,
    /// SPF is required and did not pass.
    SpfFailed,
    /// DKIM is required and did not pass.
    DkimFailed,
    /// The sender is not allowed.
    NotAllowed,
    /// It is passed on.
    Accept,
}

/// What becomes of a parsed e-mail, in the order the checks are made.
pub open spec fn email_decision(c: EmailConfig, own: Seq<Seq<char>>, f: EmailFieldsView) -> EmailDecision {
    let s = email_sender(f);
    if s.len() == 0 {
        EmailDecision::NoSender
    } else if own.contains(s) {
        EmailDecision::Own
    } else if c.verify_spf && !auth_header_matches(f.headers, spf_pattern()) {
        EmailDecision::SpfFailed
    } else if c.verify_dkim && !auth_header_matches(f.headers, dkim_pattern()) {
        EmailDecision::DkimFailed
    } else if !is_allowed_spec(c.allow_from@, s) {
        EmailDecision::NotAllowed
    } else {
        EmailDecision::Accept
    }
}

/// The text stored under `k`, when it is a text.
pub open spec fn text_at(m: Map<Seq<char>, MetaValue>, k: Seq<char>) -> Option<Seq<char>> {
    if m.contains_key(k) {
        match m[k] {
            MetaValue::Text(t) => Some(t@),
            _ => None,
        }
    } else {
        None
    }
}

/// The metadata of an accepted e-mail: its message id, subject, date and sender,
/// and its UID when known, each as text, and nothing else.
pub open spec fn email_metadata_ok(m: Map<Seq<char>, MetaValue>, f: EmailFieldsView, uid: Seq<char>) -> bool {
    &&& m.dom() == if uid.len() > 0 {
        set!["message_id"@, "subject"@, "date"@, "sender_email"@, "uid"@]
    } else {
        set!["message_id"@, "subject"@, "date"@, "sender_email"@]
    }
    &&& text_at(m, "message_id"@) == Some(text_or_empty(f.message_id))
    &&& text_at(m, "subject"@) == Some(text_or_empty(f.subject))
    &&& text_at(m, "date"@) == Some(text_or_empty(f.date))
    &&& text_at(m, "sender_email"@) == Some(email_sender(f))
    &&& uid.len() > 0 ==> text_at(m, "uid"@) == Some(uid)
}

/// The e-mail passed on for parsed fields (its sender is `email_sender`).
pub open spec fn accepted_email(e: ParsedEmail, f: EmailFieldsView, uid: Seq<char>, max: int) -> bool {
    &&& e.sender@ == email_sender(f)
    &&& e.subject@ == text_or_empty(f.subject)
    &&& e.message_id@ == text_or_empty(f.message_id)
    &&& e.content@ == email_content_spec(
        email_sender(f),
        text_or_empty(f.subject),
        text_or_empty(f.date),
        accepted_body(f, max),
    )
    &&& email_metadata_ok(e.metadata@, f, uid)
}

/// A copy of an optional string's text, empty when absent.
fn text_of(o: &Option<String>) -> (r: String)
    ensures
        r@ == text_or_empty(opt_view(*o)),
{
    match o {
        Some(s) => s.clone(),
        None => String::new(),
    }
}

/// What is passed on is safe to pass on: an accepted e-mail has a sender, who is
/// not the bot itself, who is allowed, and whose SPF and DKIM verdicts passed
/// where they are required.
pub proof fn law_accepted_sender_checked(c: EmailConfig, own: Seq<Seq<char>>, f: EmailFieldsView)
    requires
        email_decision(c, own, f) is Accept,
    ensures
        email_sender(f).len() > 0,
        !own.contains(email_sender(f)),
        is_allowed_spec(c.allow_from@, email_sender(f)),
        c.verify_spf ==> auth_header_matches(f.headers, spf_pattern()),
        c.verify_dkim ==> auth_header_matches(f.headers, dkim_pattern()),
{
}

/// An e-mail once recorded is handled already: fetched again in the same poll it
/// is skipped.
pub proof fn law_recorded_uid_is_skipped(cycle: Seq<Seq<char>>, processed: Seq<Seq<char>>, uid: Seq<char>, dedupe: bool)
    requires
        uid.len() > 0,
    ensures
        handled_already(uid, dedupe, cycle_after(cycle, uid), processed_after(processed, uid, dedupe)),
{
    if !cycle.contains(uid) {
        assert(cycle.push(uid)[cycle.len() as int] == uid);
    }
}

/// The metadata of an accepted e-mail, from its parts.
fn email_meta(message_id: &String, subject: &String, date: String, sender: &String, uid: &str) -> (m: Metadata)
    ensures
        m@.dom() == if uid@.len() > 0 {
            set!["message_id"@, "subject"@, "date"@, "sender_email"@, "uid"@]
        } else {
            set!["message_id"@, "subject"@, "date"@, "sender_email"@]
        },
        text_at(m@, "message_id"@) == Some(message_id@),
        text_at(m@, "subject"@) == Some(subject@),
        text_at(m@, "date"@) == Some(date@),
        text_at(m@, "sender_email"@) == Some(sender@),
        uid@.len() > 0 ==> text_at(m@, "uid"@) == Some(uid@),
{
    proof {
        reveal_strlit("message_id");
        reveal_strlit("subject");
        reveal_strlit("date");
        reveal_strlit("sender_email");
        reveal_strlit("uid");
        assert("message_id"@.len() == 10 && "subject"@.len() == 7 && "date"@.len() == 4);
        assert("sender_email"@.len() == 12 && "uid"@.len() == 3);
    }
    let ghost d = date@;
    let mut m = Metadata::new();
    m.insert("message_id", MetaValue::Text(message_id.clone()));
    m.insert("subject", MetaValue::Text(subject.clone()));
    m.insert("date", MetaValue::Text(date));
    m.insert("sender_email", MetaValue::Text(sender.clone()));
    let ghost m4 = m@;
    assert(text_at(m4, "message_id"@) == Some(message_id@));
    assert(text_at(m4, "subject"@) == Some(subject@));
    assert(text_at(m4, "date"@) == Some(d));
    if !uid.is_empty() {
        m.insert("uid", MetaValue::Text(String::from_str(uid)));
        assert(m@.dom() =~= set!["message_id"@, "subject"@, "date"@, "sender_email"@, "uid"@]);
    } else {
        assert(m@.dom() =~= set!["message_id"@, "subject"@, "date"@, "sender_email"@]);
    }
    m
}

/// Builds the e-mail passed on for parsed fields whose sender is `sender`.
fn build_email(f: &EmailFields, sender: String, uid: &str, max: usize) -> (e: ParsedEmail)
    requires
        sender@ == email_sender(f@),
    ensures
        accepted_email(e, f@, uid@, max as int),
{
    let subject = text_of(&f.subject);
    let date = text_of(&f.date);
    let message_id = text_of(&f.message_id);
    let text = extract_text_body(f);
    let body = if text.as_str().is_empty() {
        String::from_str("(empty email body)")
    } else {
        text
    };
    let cut = truncate_body(body.as_str(), max);
    let content = email_content(sender.as_str(), subject.as_str(), date.as_str(), cut.as_str());
    let metadata = email_meta(&message_id, &subject, date, &sender, uid);
    ParsedEmail { sender, subject, message_id, content, metadata }
}

/// What a poll does with one fetched e-mail.
pub enum FetchOutcome {
    /// Nothing: it had no body, was handled already, is not an e-mail, or has no
    /// sender; it is not recorded.
    Skipped,
    /// It is recorded as handled but not passed on; it is flagged as seen when
    /// `mark_seen`.
    Dropped { mark_seen: bool },
    /// It is recorded as handled and passed on; it is flagged as seen when
    /// `mark_seen`.
    Accepted { email: ParsedEmail, mark_seen: bool },
}

/// The UID as text: its decimal form, empty when unknown.
pub open spec fn uid_text(uid: Option<u32>) -> Seq<char> {
    match uid {
        Some(u) => decimal(u as nat),
        None => Seq::empty(),
    }
}

/// The e-mail was handled already: in this poll, or in an earlier one when
/// de-duplicating.
pub open spec fn handled_already(uid: Seq<char>, dedupe: bool, cycle: Seq<Seq<char>>, processed: Seq<Seq<char>>) -> bool {
    uid.len() > 0 && (cycle.contains(uid) || (dedupe && processed.contains(uid)))
}

/// What a poll does with one fetched e-mail, given its UID and raw body: skipped
/// when it has no body, was handled already, is not an e-mail or has no sender;
/// otherwise recorded as handled and then, by `email_decision`: dropped (flagged as
/// seen when the query flags, except after a failed SPF or DKIM check), or passed
/// on (flagged as seen when the query flags).
pub fn handle_fetched(
    config: &EmailConfig,
    own: &[String],
    query: &FetchQuery,
    uid: Option<u32>,
    body: Option<&[u8]>,
    cycle: &mut UidSet,
    processed: &mut UidSet,
) -> (r: FetchOutcome)
    requires
        old(cycle).wf(),
        old(processed).wf(),
    ensures
        final(cycle).wf(),
        final(processed).wf(),
        ({
            let u = uid_text(uid);
            let skipped = body is None || handled_already(u, query.dedupe, old(cycle).items(), old(processed).items())
                || !parses_as_email(body->0@) || email_decision(
                *config,
                text_views(own@),
                email_fields_of(body->0@),
            ) is NoSender;
            if skipped {
                r is Skipped && final(cycle).items() == old(cycle).items() && final(processed).items() == old(
                    processed,
                ).items()
            } else {
                let f = email_fields_of(body->0@);
                &&& final(cycle).items() == cycle_after(old(cycle).items(), u)
                &&& final(processed).items() == processed_after(old(processed).items(), u, query.dedupe)
                &&& match email_decision(*config, text_views(own@), f) {
                    EmailDecision::Own => r == FetchOutcome::Dropped { mark_seen: query.mark_seen },
                    EmailDecision::NotAllowed => r == FetchOutcome::Dropped { mark_seen: query.mark_seen },
                    EmailDecision::Accept => r matches FetchOutcome::Accepted { email, mark_seen } && mark_seen
                        == query.mark_seen && accepted_email(email, f, u, config.max_body_chars as int),
                    _ => r == FetchOutcome::Dropped { mark_seen: false },
                }
            }
        }),
{
    let raw = match body {
        Some(b) => b,
        None => {
            return FetchOutcome::Skipped;
        },
    };
    let uid_s = match uid {
        Some(u) => decimal_string(u as u64),
        None => String::new(),
    };
    proof {
        reveal_strlit("");
    }
    if !uid_s.as_str().is_empty() && cycle.contains(uid_s.as_str()) {
        return FetchOutcome::Skipped;
    }
    if query.dedupe && !uid_s.as_str().is_empty() && processed.contains(uid_s.as_str()) {
        return FetchOutcome::Skipped;
    }
    let f = match read_email(raw) {
        Some(f) => f,
        None => {
            return FetchOutcome::Skipped;
        },
    };
    let from = text_of(&f.from_address);
    let sender = to_lowercase_str(from.as_str());
    if sender.as_str().is_empty() {
        return FetchOutcome::Skipped;
    }
    let ghost decision = email_decision(*config, text_views(own@), f@);
    let is_own = list_holds(own, sender.as_str());
    let outcome = if is_own {
        FetchOutcome::Dropped { mark_seen: query.mark_seen }
    } else {
        let (spf, dkim) = check_authentication_results(&f);
        if config.verify_spf && !spf {
            FetchOutcome::Dropped { mark_seen: false }
        } else if config.verify_dkim && !dkim {
            FetchOutcome::Dropped { mark_seen: false }
        } else if !is_allowed(config.allow_from.as_slice(), sender.as_str()) {
            FetchOutcome::Dropped { mark_seen: query.mark_seen }
        } else {
            let e = build_email(&f, sender, uid_s.as_str(), config.max_body_chars);
            FetchOutcome::Accepted { email: e, mark_seen: query.mark_seen }
        }
    };
    remember_processed_uid(uid_s.as_str(), query.dedupe, cycle, processed);
    outcome
}

/// Whether the list holds `s`.
fn list_holds(list: &[String], s: &str) -> (b: bool)
    ensures
        b == text_views(list@).contains(s@),
{
    let t = String::from_str(s);
    let mut i: usize = 0;
    while i < list.len()
        invariant
            i <= list@.len(),
            t@ == s@,
            forall|j: int| 0 <= j < i ==> list@[j]@ != s@,
        decreases list@.len() - i,
    {
        if list[i] == t {
            assert(text_views(list@)[i as int] == s@);
            return true;
        }
        i = i + 1;
    }
    proof {
        if text_views(list@).contains(s@) {
            let k = choose|k: int| 0 <= k < text_views(list@).len() && text_views(list@)[k] == s@;
            assert(list@[k]@ == s@);
        }
    }
    false
}

/// Whether a failed fetch is tried once more: only after the first attempt, and
/// only when the error says the connection went stale.
pub fn retry_fetch(attempt: usize, error_text: &str) -> (b: bool)
    ensures
        b == (attempt == 0 && holds_marker(error_text@, reconnect_markers())),
{
    attempt == 0 && is_stale_imap_error(error_text)
}

/// What a poll does after selecting the mailbox.
pub enum SelectOutcome {
    /// The mailbox is open: search it.
    Proceed,
    /// The mailbox does not exist: end this poll quietly.
    SkipPoll,
    /// Another error: the poll fails with it.
    Fail,
}

/// What a poll does after selecting the mailbox, given the error, if any.
pub fn select_outcome(error_text: Option<&str>) -> (r: SelectOutcome)
    ensures
        match error_text {
            None => r is Proceed,
            Some(e) => if holds_marker(e@, missing_mailbox_markers()) {
                r is SkipPoll
            } else {
                r is Fail
            },
        },
{
    match error_text {
        None => SelectOutcome::Proceed,
        Some(e) => if is_missing_mailbox_error(e) {
            SelectOutcome::SkipPoll
        } else {
            SelectOutcome::Fail
        },
    }
}

/// The inbound message of an accepted e-mail: from its sender, in the chat of its
/// sender, with its content and metadata.
pub fn inbound_from_email(email: &ParsedEmail) -> (m: InboundMessage)
    ensures
        m.channel@ == "email"@,
        m.sender_id@ == email.sender@,
        m.chat_id@ == email.sender@,
        m.content@ == email.content@,
        m.media@.len() == 0,
        m.metadata@ == email.metadata@,
{
    let mut m = InboundMessage::new("email", email.sender.as_str(), email.sender.as_str(), email.content.as_str());
    m.metadata = email.metadata.clone();
    m
}

/// The map that a list of insertions leaves: later insertions of a key win.
pub open spec fn text_entries_map(s: Seq<(String, String)>) -> Map<Seq<char>, Seq<char>>
    decreases s.len(),
{
    if s.len() == 0 {
        Map::empty()
    } else {
        text_entries_map(s.drop_last()).insert(s.last().0@, s.last().1@)
    }
}

proof fn lemma_text_entries_suffix(s: Seq<(String, String)>, i: int, k: Seq<char>)
    requires
        0 <= i <= s.len(),
        forall|j: int| i <= j < s.len() ==> (#[trigger] s[j]).0@ != k,
    ensures
        text_entries_map(s).contains_key(k) == text_entries_map(s.take(i)).contains_key(k),
        text_entries_map(s)[k] == text_entries_map(s.take(i))[k],
    decreases s.len() - i,
{
    if i < s.len() {
        assert(s.drop_last().take(i) =~= s.take(i));
        assert(s.last() == s[s.len() - 1]);
        lemma_text_entries_suffix(s.drop_last(), i, k);
    } else {
        assert(s.take(i) =~= s);
    }
}

/// A map from text to text. Its `String` keys
/// are kept in a `Vec` rather than std's `HashMap`/`HashSet` or `BTreeMap`/`BTreeSet`:
/// vstd specifies those only for keys whose hashing or ordering it models
/// (`obeys_key_model`, `key_obeys_cmp_spec`), which it establishes for integers and
/// `bool` but not for `String`, so nothing could be proved of them here.
pub struct TextMap {
    entries: Vec<(String, String)>,
}

impl View for TextMap {
    type V = Map<Seq<char>, Seq<char>>;

    closed spec fn view(&self) -> Map<Seq<char>, Seq<char>> {
        text_entries_map(self.entries@)
    }
}

impl TextMap {
    /// An empty map.
    pub fn new() -> (m: Self)
        ensures
            m@ == Map::<Seq<char>, Seq<char>>::empty(),
    {
        TextMap { entries: Vec::new() }
    }

    /// Sets `key` to `value`.
    pub fn insert(&mut self, key: &str, value: &str)
        ensures
            final(self)@ == old(self)@.insert(key@, value@),
    {
        self.entries.push((String::from_str(key), String::from_str(value)));
        proof {
            assert(self.entries@.drop_last() =~= old(self).entries@);
        }
    }

    /// The value of `key`, if set.
    pub fn get(&self, key: &str) -> (r: Option<&String>)
        ensures
            match r {
                Some(v) => self@.contains_key(key@) && self@[key@] == v@,
                None => !self@.contains_key(key@),
            },
    {
        let k = String::from_str(key);
        let mut i: usize = self.entries.len();
        while i > 0
            invariant
                i <= self.entries@.len(),
                k@ == key@,
                forall|j: int| i <= j < self.entries@.len() ==> (#[trigger] self.entries@[j]).0@ != key@,
            decreases i,
        {
            if self.entries[i - 1].0 == k {
                proof {
                    let s = self.entries@;
                    lemma_text_entries_suffix(s, i as int, key@);
                    assert(s.take(i as int).drop_last() =~= s.take(i - 1));
                    assert(s.take(i as int).last() == s[i - 1]);
                }
                return Some(&self.entries[i - 1].1);
            }
            i = i - 1;
        }
        proof {
            lemma_text_entries_suffix(self.entries@, 0, key@);
        }
        None
    }
}

/// The latest subject and message id of each correspondent, for threading replies.
pub struct EmailThreads {
    /// Correspondent to the subject of their latest e-mail.
    pub subjects: TextMap,
    /// Correspondent to the message id of their latest e-mail.
    pub message_ids: TextMap,
}

impl EmailThreads {
    /// No threads yet.
    pub fn new() -> (t: Self)
        ensures
            t.subjects@ == Map::<Seq<char>, Seq<char>>::empty(),
            t.message_ids@ == Map::<Seq<char>, Seq<char>>::empty(),
    {
        EmailThreads { subjects: TextMap::new(), message_ids: TextMap::new() }
    }

    /// Records an accepted e-mail: its subject and its message id, each when not
    /// empty, become its sender's latest.
    pub fn record(&mut self, email: &ParsedEmail)
        ensures
            final(self).subjects@ == if email.subject@.len() > 0 {
                old(self).subjects@.insert(email.sender@, email.subject@)
            } else {
                old(self).subjects@
            },
            final(self).message_ids@ == if email.message_id@.len() > 0 {
                old(self).message_ids@.insert(email.sender@, email.message_id@)
            } else {
                old(self).message_ids@
            },
    {
        if !email.subject.as_str().is_empty() {
            self.subjects.insert(email.sender.as_str(), email.subject.as_str());
        }
        if !email.message_id.as_str().is_empty() {
            self.message_ids.insert(email.sender.as_str(), email.message_id.as_str());
        }
    }
}

/// How a reply is sent.
pub struct ReplyPlan {
    /// The recipient.
    pub to: String,
    /// The sender address.
    pub from: String,
    pub subject: String,
    /// The message id replied to, for `In-Reply-To` and `References`.
    pub in_reply_to: Option<String>,
}

/// Whether a metadata value is the boolean `true`.
pub open spec fn meta_true(m: Map<Seq<char>, MetaValue>, k: Seq<char>) -> bool {
    m.contains_key(k) && m[k] matches MetaValue::Bool(true)
}

/// The subject a reply takes over from the metadata: its `subject` text, trimmed,
/// when that is not empty.
pub open spec fn subject_override(m: Map<Seq<char>, MetaValue>) -> Option<Seq<char>> {
    match text_at(m, "subject"@) {
        Some(t) => if trim_spec(t).len() > 0 {
            Some(trim_spec(t))
        } else {
            None
        },
        None => None,
    }
}

/// How a message to a chat is sent by e-mail, or `None` when it is not: without
/// consent, without an SMTP host, without a recipient (the trimmed chat id), or
/// when it answers a correspondent while automatic replies are off and sending is
/// not forced. The subject is the reply subject of the correspondent's latest
/// subject (`nanobot reply` when none), unless the metadata gives one; the sender is
/// the configured address, else the SMTP username.
pub open spec fn reply_plan_spec(c: EmailConfig, m: OutboundMessage, subjects: Map<Seq<char>, Seq<char>>) -> Option<
    (Seq<char>, Seq<char>, Seq<char>),
> {
    let to = trim_spec(m.chat_id@);
    let is_reply = subjects.contains_key(to);
    if !c.consent_granted || c.smtp.host@.len() == 0 || to.len() == 0 {
        None
    } else if is_reply && !c.auto_reply_enabled && !meta_true(m.metadata@, "force_send"@) {
        None
    } else {
        let base = if is_reply { subjects[to] } else { "nanobot reply"@ };
        let subject = match subject_override(m.metadata@) {
            Some(s) => s,
            None => reply_subject_spec(base, c.subject_prefix@),
        };
        let from = if c.smtp.from_address@.len() == 0 { c.smtp.username@ } else { c.smtp.from_address@ };
        Some((to, from, subject))
    }
}

/// How a message to a chat is sent by e-mail (see `reply_plan_spec`); the reply
/// refers to the correspondent's latest message id when there is one.
pub fn plan_reply(config: &EmailConfig, msg: &OutboundMessage, threads: &EmailThreads) -> (r: Option<ReplyPlan>)
    ensures
        match reply_plan_spec(*config, *msg, threads.subjects@) {
            None => r is None,
            Some((to, from, subject)) => r matches Some(p) && p.to@ == to && p.from@ == from && p.subject@
                == subject && match p.in_reply_to {
                Some(id) => threads.message_ids@.contains_key(to) && threads.message_ids@[to] == id@,
                None => !threads.message_ids@.contains_key(to),
            },
        },
{
    if !config.consent_granted || config.smtp.host.as_str().is_empty() {
        return None;
    }
    let to = trim_str(msg.chat_id.as_str());
    if to.as_str().is_empty() {
        return None;
    }
    let last_subject = threads.subjects.get(to.as_str());
    let is_reply = last_subject.is_some();
    let force_send = match msg.metadata.get("force_send") {
        Some(MetaValue::Bool(b)) => *b,
        _ => false,
    };
    if is_reply && !config.auto_reply_enabled && !force_send {
        return None;
    }
    let base = match last_subject {
        Some(s) => s.clone(),
        None => String::from_str("nanobot reply"),
    };
    let mut subject = reply_subject(base.as_str(), config.subject_prefix.as_str());
    match msg.metadata.get("subject") {
        Some(MetaValue::Text(t)) => {
            let trimmed = trim_str(t.as_str());
            if !trimmed.as_str().is_empty() {
                subject = trimmed;
            }
        },
        _ => {},
    }
    let from = if config.smtp.from_address.as_str().is_empty() {
        config.smtp.username.clone()
    } else {
        config.smtp.from_address.clone()
    };
    let in_reply_to = match threads.message_ids.get(to.as_str()) {
        Some(id) => Some(id.clone()),
        None => None,
    };
    Some(ReplyPlan { to, from, subject, in_reply_to })
}

} // verus!

verus! {

/// Who a reply comes from depends on the configuration alone: every planned reply
/// is sent from the configured `from` address when one is set, from the SMTP
/// username only when none is, whatever the message, the chat or the thread.
pub proof fn law_reply_sender_from_config(
    c: EmailConfig,
    m1: OutboundMessage,
    s1: Map<Seq<char>, Seq<char>>,
    m2: OutboundMessage,
    s2: Map<Seq<char>, Seq<char>>,
)
    ensures
        reply_plan_spec(c, m1, s1) matches Some(p) ==> p.1 == (if c.smtp.from_address@.len() > 0 {
            c.smtp.from_address@
        } else {
            c.smtp.username@
        }),
        c.smtp.from_address@.len() > 0 ==> (reply_plan_spec(c, m1, s1) matches Some(p) ==> p.1
            == c.smtp.from_address@),
        ({
            let a = reply_plan_spec(c, m1, s1);
            let b = reply_plan_spec(c, m2, s2);
            a is Some && b is Some ==> a.unwrap().1 == b.unwrap().1
        }),
{
}

} // verus!
