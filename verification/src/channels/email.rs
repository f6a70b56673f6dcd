//! Email channel logic: address normalization, sender filtering, reply subjects,
//! the de-duplication of fetched messages, and the planning of replies.

use vstd::prelude::*;

use crate::text::{
    chars_of, contains_chars, contains_spec, eq_ignore_ascii_case_chars,
    eq_ignore_ascii_case_spec, find_char, first_index_of, has_char, last_index_of, lemma_first_index,
    lemma_last_index, push_all, replace_chars, replace_spec, rfind_char, slice_vec,
    starts_with_chars, starts_with_spec, string_of, lowercase_spec, to_lowercase_str, trim_chars,
    trim_spec,
};

verus! {

/// What `normalize_address` returns: the address inside the last `<...>` (trimmed,
/// lower-cased) if that is not empty; else the whole trimmed value lower-cased if it
/// holds an `@`; else nothing.
pub open spec fn normalize_spec(value: Seq<char>) -> Seq<char> {
    let raw = trim_spec(value);
    if raw.len() == 0 {
        Seq::empty()
    } else {
        match bracket_address(raw) {
            Some(a) => lowercase_spec(a),
            None => if has_char(raw, '@') {
                lowercase_spec(raw)
            } else {
                Seq::empty()
            },
        }
    }
}

/// The trimmed text between the last `<` of `raw` and the first `>` after it, when
/// both exist and the text is not empty.
pub open spec fn bracket_address(raw: Seq<char>) -> Option<Seq<char>> {
    if has_char(raw, '<') {
        let s = last_index_of(raw, '<');
        let after = raw.skip(s);
        if has_char(after, '>') {
            let e = first_index_of(after, '>');
            let addr = trim_spec(raw.subrange(s + 1, s + e));
            if addr.len() > 0 {
                Some(addr)
            } else {
                None
            }
        } else {
            None
        }
    } else {
        None
    }
}

fn bracket_address_exec(raw: &[char]) -> (r: Option<Vec<char>>)
    ensures
        match bracket_address(raw@) {
            Some(a) => r matches Some(v) && v@ == a,
            None => r is None,
        },
{
    let n = raw.len();
    match rfind_char(raw, '<') {
        None => None,
        Some(s) => {
            proof {
                lemma_last_index(raw@, '<', s as int);
            }
            let after = slice_vec(raw, s, n);
            assert(after@ =~= raw@.skip(s as int));
            match find_char(after.as_slice(), '>') {
                None => None,
                Some(e) => {
                    proof {
                        lemma_first_index(after@, '>', e as int);
                    }
                    assert(e >= 1) by {
                        if e == 0 {
                            assert(after@[0] == '<');
                        }
                    }
                    let inner = slice_vec(raw, s + 1, s + e);
                    let addr = trim_chars(inner.as_slice());
                    if addr.len() > 0 {
                        Some(addr)
                    } else {
                        None
                    }
                },
            }
        },
    }
}

/// Normalizes an email address: `Name <User@Example.com>` and `User@Example.com`
/// both give `user@example.com`; a value without an address gives the empty string.
pub fn normalize_address(value: &str) -> (r: String)
    ensures
        r@ == normalize_spec(value@),
{
    let v = chars_of(value);
    let raw = trim_chars(v.as_slice());
    if raw.len() == 0 {
        return String::new();
    }
    match bracket_address_exec(raw.as_slice()) {
        Some(a) => {
            let s = string_of(a.as_slice());
            to_lowercase_str(s.as_str())
        },
        None => {
            match find_char(raw.as_slice(), '@') {
                Some(_) => {
                    let s = string_of(raw.as_slice());
                    to_lowercase_str(s.as_str())
                },
                None => String::new(),
            }
        },
    }
}

/// Whether a sender passes the allow list: an empty list allows everyone; otherwise
/// some entry must equal the normalized sender, ignoring ASCII case.
pub open spec fn is_allowed_spec(allow_from: Seq<String>, sender: Seq<char>) -> bool {
    allow_from.len() == 0 || exists|i: int|
        0 <= i < allow_from.len() && eq_ignore_ascii_case_spec(allow_from[i]@, normalize_spec(sender))
}

/// Checks a sender against the `allow_from` list.
pub fn is_allowed(allow_from: &[String], sender: &str) -> (b: bool)
    ensures
        b == is_allowed_spec(allow_from@, sender@),
{
    if allow_from.len() == 0 {
        return true;
    }
    let normalized = normalize_address(sender);
    let nc = chars_of(normalized.as_str());
    let mut i: usize = 0;
    while i < allow_from.len()
        invariant
            i <= allow_from@.len(),
            nc@ == normalize_spec(sender@),
            forall|j: int| 0 <= j < i ==> !eq_ignore_ascii_case_spec(allow_from@[j]@, normalize_spec(sender@)),
        decreases allow_from@.len() - i,
    {
        let a = chars_of(allow_from[i].as_str());
        if eq_ignore_ascii_case_chars(a.as_slice(), nc.as_slice()) {
            return true;
        }
        i = i + 1;
    }
    false
}

/// The subject of a reply: the trimmed base subject (`nanobot reply` when empty),
/// kept as is when it already starts with `re:` in any case, else prefixed.
pub open spec fn reply_subject_spec(base: Seq<char>, prefix: Seq<char>) -> Seq<char> {
    let t = trim_spec(base);
    let subject = if t.len() == 0 { "nanobot reply"@ } else { t };
    if starts_with_spec(lowercase_spec(subject), "re:"@) {
        subject
    } else {
        prefix + subject
    }
}

/// Builds the subject of a reply.
pub fn reply_subject(base_subject: &str, prefix: &str) -> (r: String)
    ensures
        r@ == reply_subject_spec(base_subject@, prefix@),
{
    let b = chars_of(base_subject);
    let t = trim_chars(b.as_slice());
    let subject = if t.len() == 0 { chars_of("nanobot reply") } else { t };
    let s = string_of(subject.as_slice());
    let lower = to_lowercase_str(s.as_str());
    let lc = chars_of(lower.as_str());
    let re = chars_of("re:");
    if starts_with_chars(lc.as_slice(), re.as_slice()) {
        s
    } else {
        let mut v = chars_of(prefix);
        push_all(&mut v, subject.as_slice());
        string_of(v.as_slice())
    }
}

/// The common HTML entities, decoded in this order (so `&amp;lt;` becomes `<`).
pub open spec fn decode_entities_spec(t: Seq<char>) -> Seq<char> {
    let t1 = replace_spec(t, "&amp;"@, "&"@);
    let t2 = replace_spec(t1, "&lt;"@, "<"@);
    let t3 = replace_spec(t2, "&gt;"@, ">"@);
    let t4 = replace_spec(t3, "&quot;"@, "\""@);
    let t5 = replace_spec(t4, "&#39;"@, "'"@);
    let t6 = replace_spec(t5, "&apos;"@, "'"@);
    replace_spec(t6, "&nbsp;"@, " "@)
}

fn replace_lit(t: &[char], from: &str, to: &str) -> (v: Vec<char>)
    requires
        from@.len() > 0,
    ensures
        v@ == replace_spec(t@, from@, to@),
{
    let f = chars_of(from);
    let g = chars_of(to);
    replace_chars(t, f.as_slice(), g.as_slice())
}

/// Decodes the common HTML entities `&amp; &lt; &gt; &quot; &#39; &apos; &nbsp;`.
pub fn decode_html_entities(text: &str) -> (r: String)
    ensures
        r@ == decode_entities_spec(text@),
{
    proof {
        reveal_strlit("&amp;");
        reveal_strlit("&lt;");
        reveal_strlit("&gt;");
        reveal_strlit("&quot;");
        reveal_strlit("&#39;");
        reveal_strlit("&apos;");
        reveal_strlit("&nbsp;");
    }
    let t = chars_of(text);
    let t1 = replace_lit(t.as_slice(), "&amp;", "&");
    let t2 = replace_lit(t1.as_slice(), "&lt;", "<");
    let t3 = replace_lit(t2.as_slice(), "&gt;", ">");
    let t4 = replace_lit(t3.as_slice(), "&quot;", "\"");
    let t5 = replace_lit(t4.as_slice(), "&#39;", "'");
    let t6 = replace_lit(t5.as_slice(), "&apos;", "'");
    let t7 = replace_lit(t6.as_slice(), "&nbsp;", " ");
    string_of(t7.as_slice())
}

} // verus!

verus! {

/// The bound on remembered UIDs; past it the older half is forgotten.
pub const MAX_PROCESSED_UIDS: usize = 100000;

/// Number of hash buckets of a `UidSet`.
pub const UID_BUCKETS: usize = 4096;

/// The bucket of a UID: a polynomial hash of its characters.
pub open spec fn bucket_of(s: Seq<char>) -> nat
    decreases s.len(),
{
    if s.len() == 0 {
        0
    } else {
        (bucket_of(s.drop_last()) * 31 + (s.last() as u32) as nat) % (UID_BUCKETS as nat)
    }
}

fn bucket_index(uid: &str) -> (b: usize)
    ensures
        b == bucket_of(uid@),
        b < UID_BUCKETS,
{
    let cs = chars_of(uid);
    let mut acc: u64 = 0;
    let mut i: usize = 0;
    while i < cs.len()
        invariant
            i <= cs@.len(),
            cs@ == uid@,
            acc == bucket_of(cs@.take(i as int)),
            acc < UID_BUCKETS,
        decreases cs@.len() - i,
    {
        let c: u32 = cs[i] as u32;
        assert(cs@.take(i + 1).drop_last() =~= cs@.take(i as int));
        acc = (acc * 31 + c as u64) % (UID_BUCKETS as u64);
        i = i + 1;
    }
    assert(cs@.take(cs@.len() as int) =~= cs@);
    acc as usize
}

/// A set of IMAP UIDs that remembers the order in which they were added; a hash
/// index keeps look-ups short. UIDs are text, and its `String` keys
/// are kept in a `Vec` rather than std's `HashMap`/`HashSet` or `BTreeMap`/`BTreeSet`:
/// vstd specifies those only for keys whose hashing or ordering it models
/// (`obeys_key_model`, `key_obeys_cmp_spec`), which it establishes for integers and
/// `bool` but not for `String`, so nothing could be proved of them here.
pub struct UidSet {
    order: Vec<String>,
    buckets: Vec<Vec<String>>,
}

/// The views of a list of strings.
pub open spec fn uid_views(v: Seq<String>) -> Seq<Seq<char>> {
    Seq::new(v.len(), |i: int| v[i]@)
}

/// Bucket `b` holds a string with view `k`.
pub open spec fn bucket_has(buckets: Seq<Vec<String>>, b: int, k: Seq<char>) -> bool {
    exists|j: int| 0 <= j < buckets[b]@.len() && #[trigger] buckets[b]@[j]@ == k
}

impl UidSet {
    /// The UIDs, oldest first.
    pub closed spec fn items(self) -> Seq<Seq<char>> {
        uid_views(self.order@)
    }

    /// The index agrees with the list, and no UID is listed twice.
    pub closed spec fn wf(self) -> bool {
        &&& self.buckets@.len() == UID_BUCKETS
        &&& uid_views(self.order@).no_duplicates()
        &&& forall|b: int, j: int| 0 <= b < UID_BUCKETS && 0 <= j < self.buckets@[b]@.len() ==> {
            &&& bucket_of(#[trigger] self.buckets@[b]@[j]@) == b
            &&& uid_views(self.order@).contains(self.buckets@[b]@[j]@)
        }
        &&& forall|i: int| 0 <= i < self.order@.len() ==> bucket_has(
            self.buckets@,
            bucket_of(#[trigger] self.order@[i]@) as int,
            self.order@[i]@,
        )
    }

    /// A well-formed set has no UID twice.
    pub proof fn lemma_distinct(self)
        requires
            self.wf(),
        ensures
            self.items().no_duplicates(),
    {
    }

    fn empty_buckets() -> (b: Vec<Vec<String>>)
        ensures
            b@.len() == UID_BUCKETS,
            forall|i: int| 0 <= i < UID_BUCKETS ==> (#[trigger] b@[i])@.len() == 0,
    {
        let mut b: Vec<Vec<String>> = Vec::new();
        let mut i: usize = 0;
        while i < UID_BUCKETS
            invariant
                i <= UID_BUCKETS,
                b@.len() == i,
                forall|k: int| 0 <= k < i ==> (#[trigger] b@[k])@.len() == 0,
            decreases UID_BUCKETS - i,
        {
            b.push(Vec::new());
            i = i + 1;
        }
        b
    }

    /// An empty set.
    pub fn new() -> (s: Self)
        ensures
            s.wf(),
            s.items() == Seq::<Seq<char>>::empty(),
    {
        let s = UidSet { order: Vec::new(), buckets: Self::empty_buckets() };
        assert(s.items() =~= Seq::<Seq<char>>::empty());
        s
    }

    /// Number of UIDs.
    pub fn len(&self) -> (n: usize)
        ensures
            n == self.items().len(),
    {
        self.order.len()
    }

    /// Whether `uid` is in the set.
    pub fn contains(&self, uid: &str) -> (b: bool)
        requires
            self.wf(),
        ensures
            b == self.items().contains(uid@),
    {
        let h = bucket_index(uid);
        let u = String::from_str(uid);
        let bucket = &self.buckets[h];
        let mut j: usize = 0;
        while j < bucket.len()
            invariant
                self.wf(),
                h < UID_BUCKETS,
                j <= bucket@.len(),
                bucket == self.buckets@[h as int],
                u@ == uid@,
                forall|m: int| 0 <= m < j ==> bucket@[m]@ != uid@,
            decreases bucket@.len() - j,
        {
            if bucket[j] == u {
                assert(bucket_has(self.buckets@, h as int, uid@));
                assert(uid_views(self.order@).contains(self.buckets@[h as int]@[j as int]@));
                return true;
            }
            j = j + 1;
        }
        proof {
            if self.items().contains(uid@) {
                let i = choose|i: int| 0 <= i < self.items().len() && self.items()[i] == uid@;
                assert(self.order@[i]@ == uid@);
                assert(bucket_has(self.buckets@, bucket_of(self.order@[i]@) as int, self.order@[i]@));
            }
        }
        false
    }

    /// Adds `uid` at the end unless it is already present; `true` when it was added.
    pub fn insert(&mut self, uid: &str) -> (added: bool)
        requires
            old(self).wf(),
        ensures
            final(self).wf(),
            added == !old(self).items().contains(uid@),
            final(self).items() == if added { old(self).items().push(uid@) } else { old(self).items() },
    {
        if self.contains(uid) {
            return false;
        }
        let h = bucket_index(uid);
        let mut bucket = self.buckets[h].clone();
        bucket.push(String::from_str(uid));
        let ghost ob = self.buckets@;
        let ghost oo = self.order@;
        self.buckets.set(h, bucket);
        self.order.push(String::from_str(uid));
        proof {
            let nb = self.buckets@;
            let no = self.order@;
            assert(uid_views(no) =~= uid_views(oo).push(uid@));
            assert forall|b: int, j: int| 0 <= b < UID_BUCKETS && 0 <= j < nb[b]@.len() implies {
                &&& bucket_of(#[trigger] nb[b]@[j]@) == b
                &&& uid_views(no).contains(nb[b]@[j]@)
            } by {
                if b == h && j == nb[b]@.len() - 1 {
                    assert(uid_views(no)[no.len() - 1] == uid@);
                } else {
                    assert(nb[b]@[j] == ob[b]@[j]);
                    assert(uid_views(oo).contains(ob[b]@[j]@));
                    let i = choose|i: int| 0 <= i < uid_views(oo).len() && uid_views(oo)[i] == ob[b]@[j]@;
                    assert(uid_views(no)[i] == uid_views(oo)[i]);
                }
            }
            assert forall|i: int| 0 <= i < no.len() implies bucket_has(nb, bucket_of(#[trigger] no[i]@) as int, no[i]@) by {
                if i == no.len() - 1 {
                    assert(nb[h as int]@[nb[h as int]@.len() - 1]@ == uid@);
                } else {
                    assert(no[i] == oo[i]);
                    assert(bucket_has(ob, bucket_of(oo[i]@) as int, oo[i]@));
                    let b = bucket_of(oo[i]@) as int;
                    let j = choose|j: int| 0 <= j < ob[b]@.len() && #[trigger] ob[b]@[j]@ == oo[i]@;
                    assert(nb[b]@[j] == ob[b]@[j]);
                }
            }
        }
        true
    }

    /// Keeps only the UIDs from position `start` on (the newer ones).
    pub fn keep_from(&mut self, start: usize)
        requires
            old(self).wf(),
            start <= old(self).items().len(),
        ensures
            final(self).wf(),
            final(self).items() == old(self).items().skip(start as int),
    {
        let ghost before = self.items();
        let mut fresh = UidSet::new();
        let mut i = start;
        while i < self.order.len()
            invariant
                self.wf(),
                self.items() == before,
                start <= i <= before.len(),
                fresh.wf(),
                fresh.items() == before.subrange(start as int, i as int),
            decreases before.len() - i,
        {
            proof {
                assert(!fresh.items().contains(before[i as int])) by {
                    if fresh.items().contains(before[i as int]) {
                        let k = choose|k: int| 0 <= k < fresh.items().len() && fresh.items()[k] == before[i as int];
                        assert(before[start + k] == before[i as int]);
                    }
                }
            }
            let added = fresh.insert(self.order[i].as_str());
            assert(fresh.items() =~= before.subrange(start as int, i + 1));
            i = i + 1;
        }
        assert(before.subrange(start as int, before.len() as int) =~= before.skip(start as int));
        *self = fresh;
    }
}

/// `items` with `uid` added at the end unless it is already there.
pub open spec fn added_once(items: Seq<Seq<char>>, uid: Seq<char>) -> Seq<Seq<char>> {
    if items.contains(uid) {
        items
    } else {
        items.push(uid)
    }
}

/// The UIDs handled in this poll after `uid` is recorded (an empty UID is not).
pub open spec fn cycle_after(items: Seq<Seq<char>>, uid: Seq<char>) -> Seq<Seq<char>> {
    if uid.len() == 0 {
        items
    } else {
        added_once(items, uid)
    }
}

/// The UIDs handled in earlier polls after `uid` is recorded: only when
/// de-duplicating and the UID is not empty; past `MAX_PROCESSED_UIDS` the older
/// half (the first `len / 2`) is forgotten.
pub open spec fn processed_after(items: Seq<Seq<char>>, uid: Seq<char>, dedupe: bool) -> Seq<Seq<char>> {
    if uid.len() == 0 || !dedupe {
        items
    } else {
        let grown = added_once(items, uid);
        if grown.len() > MAX_PROCESSED_UIDS {
            grown.skip((grown.len() / 2) as int)
        } else {
            grown
        }
    }
}

/// The memory of handled UIDs stays bounded: recording a UID in a memory of at
/// most `MAX_PROCESSED_UIDS` UIDs leaves at most that many.
pub proof fn law_processed_uids_bounded(items: Seq<Seq<char>>, uid: Seq<char>, dedupe: bool)
    requires
        items.len() <= MAX_PROCESSED_UIDS,
    ensures
        processed_after(items, uid, dedupe).len() <= MAX_PROCESSED_UIDS,
{
}

/// Records a handled UID: it joins `cycle_uids`, and also `processed_uids` when
/// de-duplicating; when that set grows past `MAX_PROCESSED_UIDS` its older half
/// (the first `len / 2`) is forgotten. An empty UID is not recorded.
pub fn remember_processed_uid(uid: &str, dedupe: bool, cycle_uids: &mut UidSet, processed_uids: &mut UidSet)
    requires
        old(cycle_uids).wf(),
        old(processed_uids).wf(),
    ensures
        final(cycle_uids).wf(),
        final(processed_uids).wf(),
        final(cycle_uids).items() == cycle_after(old(cycle_uids).items(), uid@),
        final(processed_uids).items() == processed_after(old(processed_uids).items(), uid@, dedupe),
{
    if uid.is_empty() {
        return;
    }
    cycle_uids.insert(uid);
    if dedupe {
        processed_uids.insert(uid);
        let n = processed_uids.len();
        if n > MAX_PROCESSED_UIDS {
            processed_uids.keep_from(n / 2);
        }
    }
}

/// The lower-cased error text holds one of `markers`.
pub open spec fn holds_marker(text: Seq<char>, markers: Seq<Seq<char>>) -> bool {
    exists|i: int| 0 <= i < markers.len() && contains_spec(lowercase_spec(text), markers[i])
}

/// Markers (lower case) of an IMAP connection that went stale.
pub open spec fn reconnect_markers() -> Seq<Seq<char>> {
    seq![
        "disconnected for inactivity"@,
        "eof occurred in violation of protocol"@,
        "socket error"@,
        "connection reset"@,
        "broken pipe"@,
        "bye"@,
    ]
}

/// Markers (lower case) of a mailbox that does not exist.
pub open spec fn missing_mailbox_markers() -> Seq<Seq<char>> {
    seq![
        "mailbox doesn't exist"@,
        "select failed"@,
        "no such mailbox"@,
        "can't open mailbox"@,
        "does not exist"@,
    ]
}

fn holds_any(lower: &[char], markers: &[&str]) -> (b: bool)
    ensures
        b == exists|i: int| 0 <= i < markers@.len() && contains_spec(lower@, markers@[i]@),
{
    let mut i: usize = 0;
    while i < markers.len()
        invariant
            i <= markers@.len(),
            forall|j: int| 0 <= j < i ==> !contains_spec(lower@, markers@[j]@),
        decreases markers@.len() - i,
    {
        let m = chars_of(markers[i]);
        if contains_chars(lower, m.as_slice()) {
            return true;
        }
        i = i + 1;
    }
    false
}

/// Whether an IMAP error (given by its text) means the connection went stale.
pub fn is_stale_imap_error(err_text: &str) -> (b: bool)
    ensures
        b == holds_marker(err_text@, reconnect_markers()),
{
    let lower = to_lowercase_str(err_text);
    let lc = chars_of(lower.as_str());
    let markers: [&str; 6] = [
        "disconnected for inactivity",
        "eof occurred in violation of protocol",
        "socket error",
        "connection reset",
        "broken pipe",
        "bye",
    ];
    let r = holds_any(lc.as_slice(), markers.as_slice());
    proof {
        assert(markers@.map_values(|s: &str| s@) =~= reconnect_markers());
        assert forall|i: int| 0 <= i < 6 implies markers@[i]@ == reconnect_markers()[i] by {
            assert(markers@.map_values(|s: &str| s@)[i] == markers@[i]@);
        }
    }
    r
}

/// Whether an IMAP error (given by its text) means the mailbox does not exist.
pub fn is_missing_mailbox_error(err_text: &str) -> (b: bool)
    ensures
        b == holds_marker(err_text@, missing_mailbox_markers()),
{
    let lower = to_lowercase_str(err_text);
    let lc = chars_of(lower.as_str());
    let markers: [&str; 5] = [
        "mailbox doesn't exist",
        "select failed",
        "no such mailbox",
        "can't open mailbox",
        "does not exist",
    ];
    let r = holds_any(lc.as_slice(), markers.as_slice());
    proof {
        assert(markers@.map_values(|s: &str| s@) =~= missing_mailbox_markers());
        assert forall|i: int| 0 <= i < 5 implies markers@[i]@ == missing_mailbox_markers()[i] by {
            assert(markers@.map_values(|s: &str| s@)[i] == markers@[i]@);
        }
    }
    r
}

} // verus!

verus! {

/// Any entry of a non-empty allow list admits the senders it names, ignoring
/// ASCII case: whichever position the matching entry has, the sender is allowed;
/// and a sender that no entry names is not.
pub proof fn law_allow_list_any_entry(allow_from: Seq<String>, sender: Seq<char>, i: int)
    requires
        0 <= i < allow_from.len(),
    ensures
        eq_ignore_ascii_case_spec(allow_from[i]@, normalize_spec(sender)) ==> is_allowed_spec(allow_from, sender),
        (forall|j: int| 0 <= j < allow_from.len() ==> !eq_ignore_ascii_case_spec(#[trigger] allow_from[j]@, normalize_spec(sender)))
            ==> !is_allowed_spec(allow_from, sender),
{
}

/// Joining two non-empty allow lists admits exactly the senders that either admits.
pub proof fn law_allow_lists_join(a: Seq<String>, b: Seq<String>, sender: Seq<char>)
    requires
        a.len() > 0,
        b.len() > 0,
    ensures
        is_allowed_spec(a + b, sender) == (is_allowed_spec(a, sender) || is_allowed_spec(b, sender)),
{
    let n = normalize_spec(sender);
    if is_allowed_spec(a + b, sender) {
        let i = choose|i: int| 0 <= i < (a + b).len() && eq_ignore_ascii_case_spec((a + b)[i]@, n);
        if i < a.len() {
            assert((a + b)[i] == a[i]);
        } else {
            assert((a + b)[i] == b[i - a.len()]);
        }
    }
    if is_allowed_spec(a, sender) {
        let i = choose|i: int| 0 <= i < a.len() && eq_ignore_ascii_case_spec(a[i]@, n);
        assert((a + b)[i] == a[i]);
    }
    if is_allowed_spec(b, sender) {
        let i = choose|i: int| 0 <= i < b.len() && eq_ignore_ascii_case_spec(b[i]@, n);
        assert((a + b)[a.len() + i] == b[i]);
    }
}

} // verus!
