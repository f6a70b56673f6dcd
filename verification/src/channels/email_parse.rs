//! Reading a fetched e-mail: its fields through `mail-parser`, its text body, and
//! the SPF and DKIM verdicts of its `Authentication-Results` headers.

use vstd::prelude::*;

use crate::channels::email::{decode_entities_spec, decode_html_entities};
use crate::pattern::{found, is_found, replace_all_or_same, replaced_or_same};
use crate::text::{chars_of, eq_ignore_ascii_case_chars, eq_ignore_ascii_case_spec};

verus! {

/// The fields of a parsed e-mail that the channel reads.
pub struct EmailFields {
    /// The address of the first `From` mailbox.
    pub from_address: Option<String>,
    pub subject: Option<String>,
    /// The `Date` header in RFC 3339 form.
    pub date: Option<String>,
    pub message_id: Option<String>,
    /// The first text/plain body part.
    pub body_text: Option<String>,
    /// The first text/html body part.
    pub body_html: Option<String>,
    /// Every header's name, and its value when it is plain text.
    pub headers: Vec<(String, Option<String>)>,
}

/// The fields of a parsed e-mail, as text.
pub struct EmailFieldsView {
    pub from_address: Option<Seq<char>>,
    pub subject: Option<Seq<char>>,
    pub date: Option<Seq<char>>,
    pub message_id: Option<Seq<char>>,
    pub body_text: Option<Seq<char>>,
    pub body_html: Option<Seq<char>>,
    pub headers: Seq<(Seq<char>, Option<Seq<char>>)>,
}

/// The view of an optional string.
pub open spec fn opt_view(o: Option<String>) -> Option<Seq<char>> {
    match o {
        Some(s) => Some(s@),
        None => None,
    }
}

impl View for EmailFields {
    type V = EmailFieldsView;

    open spec fn view(&self) -> EmailFieldsView {
        EmailFieldsView {
            from_address: opt_view(self.from_address),
            subject: opt_view(self.subject),
            date: opt_view(self.date),
            message_id: opt_view(self.message_id),
            body_text: opt_view(self.body_text),
            body_html: opt_view(self.body_html),
            headers: header_views(self.headers@),
        }
    }
}

/// Whether `mail-parser` reads the bytes as an e-mail.
pub uninterp spec fn parses_as_email(raw: Seq<u8>) -> bool;

/// The address of the first `From` mailbox that `mail-parser` reads.
pub uninterp spec fn email_from_address(raw: Seq<u8>) -> Option<Seq<char>>;

/// The `Subject` that `mail-parser` reads.
pub uninterp spec fn email_subject(raw: Seq<u8>) -> Option<Seq<char>>;

/// The `Date` that `mail-parser` reads, in its RFC 3339 form.
pub uninterp spec fn email_date(raw: Seq<u8>) -> Option<Seq<char>>;

/// The `Message-ID` that `mail-parser` reads.
pub uninterp spec fn email_message_id(raw: Seq<u8>) -> Option<Seq<char>>;

/// The first text body part that `mail-parser` reads.
pub uninterp spec fn email_body_text(raw: Seq<u8>) -> Option<Seq<char>>;

/// The first HTML body part that `mail-parser` reads.
pub uninterp spec fn email_body_html(raw: Seq<u8>) -> Option<Seq<char>>;

/// The headers that `mail-parser` reads: each name, and its value when that is
/// plain text.
pub uninterp spec fn email_headers(raw: Seq<u8>) -> Seq<(Seq<char>, Option<Seq<char>>)>;

/// `MessageParser::default().parse(raw).is_some()` of `mail-parser`.
#[verifier::external_body]
fn mail_parses(raw: &[u8]) -> (b: bool)
    ensures
        b == parses_as_email(raw@),
{
    mail_parser::MessageParser::default().parse(raw).is_some()
}

/// `from()`, its `first()` mailbox and that mailbox's `address()`, of the parsed e-mail.
#[verifier::external_body]
fn mail_from_address(raw: &[u8]) -> (r: Option<String>)
    ensures
        opt_view(r) == email_from_address(raw@),
{
    let m = mail_parser::MessageParser::default().parse(raw)?;
    m.from().and_then(|a| a.first()).and_then(|a| a.address()).map(|s| s.to_string())
}

/// `subject()` of the parsed e-mail.
#[verifier::external_body]
fn mail_subject(raw: &[u8]) -> (r: Option<String>)
    ensures
        opt_view(r) == email_subject(raw@),
{
    let m = mail_parser::MessageParser::default().parse(raw)?;
    m.subject().map(|s| s.to_string())
}

/// `date()` of the parsed e-mail, as `to_rfc3339()` writes it.
#[verifier::external_body]
fn mail_date(raw: &[u8]) -> (r: Option<String>)
    ensures
        opt_view(r) == email_date(raw@),
{
    let m = mail_parser::MessageParser::default().parse(raw)?;
    m.date().map(|d| d.to_rfc3339())
}

/// `message_id()` of the parsed e-mail.
#[verifier::external_body]
fn mail_message_id(raw: &[u8]) -> (r: Option<String>)
    ensures
        opt_view(r) == email_message_id(raw@),
{
    let m = mail_parser::MessageParser::default().parse(raw)?;
    m.message_id().map(|s| s.to_string())
}

/// `body_text(0)` of the parsed e-mail.
#[verifier::external_body]
fn mail_body_text(raw: &[u8]) -> (r: Option<String>)
    ensures
        opt_view(r) == email_body_text(raw@),
{
    let m = mail_parser::MessageParser::default().parse(raw)?;
    m.body_text(0).map(|t| t.into_owned())
}

/// `body_html(0)` of the parsed e-mail.
#[verifier::external_body]
fn mail_body_html(raw: &[u8]) -> (r: Option<String>)
    ensures
        opt_view(r) == email_body_html(raw@),
{
    let m = mail_parser::MessageParser::default().parse(raw)?;
    m.body_html(0).map(|t| t.into_owned())
}

/// `headers()` of the parsed e-mail: each `name()`, and the `value()` when it is
/// `HeaderValue::Text`.
#[verifier::external_body]
fn mail_headers(raw: &[u8]) -> (r: Vec<(String, Option<String>)>)
    ensures
        header_views(r@) == email_headers(raw@),
{
    let Some(m) = mail_parser::MessageParser::default().parse(raw) else { return Vec::new() };
    m.headers().iter().map(|h| (h.name().to_string(), match h.value() {
        mail_parser::HeaderValue::Text(t) => Some(t.to_string()),
        _ => None,
    })).collect()
}

/// The views of a list of headers.
pub open spec fn header_views(v: Seq<(String, Option<String>)>) -> Seq<(Seq<char>, Option<Seq<char>>)> {
    Seq::new(v.len(), |i: int| (v[i].0@, opt_view(v[i].1)))
}

/// The fields that `mail-parser` reads from raw bytes that are an e-mail.
pub open spec fn email_fields_of(raw: Seq<u8>) -> EmailFieldsView {
    EmailFieldsView {
        from_address: email_from_address(raw),
        subject: email_subject(raw),
        date: email_date(raw),
        message_id: email_message_id(raw),
        body_text: email_body_text(raw),
        body_html: email_body_html(raw),
        headers: email_headers(raw),
    }
}

/// Reads an e-mail's fields from its raw bytes: `None` when they are not an e-mail.
pub fn read_email(raw: &[u8]) -> (r: Option<EmailFields>)
    ensures
        match r {
            Some(f) => parses_as_email(raw@) && f@ == email_fields_of(raw@),
            None => !parses_as_email(raw@),
        },
{
    if !mail_parses(raw) {
        return None;
    }
    let f = EmailFields {
        from_address: mail_from_address(raw),
        subject: mail_subject(raw),
        date: mail_date(raw),
        message_id: mail_message_id(raw),
        body_text: mail_body_text(raw),
        body_html: mail_body_html(raw),
        headers: mail_headers(raw),
    };
    assert(f@.headers =~= email_headers(raw@));
    Some(f)
}

/// The pattern of a `<br>` tag, any case, with or without `/`.
pub open spec fn br_pattern() -> Seq<char> {
    "(?i)<\\s*br\\s*/?>"@
}

/// The pattern of a closing `</p>` tag, any case.
pub open spec fn p_close_pattern() -> Seq<char> {
    "(?i)<\\s*/\\s*p\\s*>"@
}

/// The pattern of any tag.
pub open spec fn tag_pattern() -> Seq<char> {
    "<[^>]+>"@
}

/// The plain text of an HTML body: line breaks for `<br>` and `</p>`, the other
/// tags removed, the common entities decoded.
pub open spec fn html_text_spec(html: Seq<char>) -> Seq<char> {
    let t1 = replaced_or_same(br_pattern(), html, "\n"@);
    let t2 = replaced_or_same(p_close_pattern(), t1, "\n"@);
    let t3 = replaced_or_same(tag_pattern(), t2, ""@);
    decode_entities_spec(t3)
}

/// The plain text of an HTML body (see `html_text_spec`).
pub fn html_to_text(raw_html: &str) -> (r: String)
    ensures
        r@ == html_text_spec(raw_html@),
{
    let t1 = replace_all_or_same("(?i)<\\s*br\\s*/?>", raw_html, "\n");
    let t2 = replace_all_or_same("(?i)<\\s*/\\s*p\\s*>", t1.as_str(), "\n");
    let t3 = replace_all_or_same("<[^>]+>", t2.as_str(), "");
    decode_html_entities(t3.as_str())
}

/// The text body of an e-mail: its text part, else the plain text of its HTML
/// part, else empty.
pub open spec fn text_body_spec(f: EmailFieldsView) -> Seq<char> {
    match f.body_text {
        Some(t) => t,
        None => match f.body_html {
            Some(h) => html_text_spec(h),
            None => Seq::empty(),
        },
    }
}

/// The text body of an e-mail (see `text_body_spec`).
pub fn extract_text_body(f: &EmailFields) -> (r: String)
    ensures
        r@ == text_body_spec(f@),
{
    match &f.body_text {
        Some(t) => t.clone(),
        None => match &f.body_html {
            Some(h) => html_to_text(h.as_str()),
            None => String::new(),
        },
    }
}

/// The pattern of a passing SPF verdict.
pub open spec fn spf_pattern() -> Seq<char> {
    "(?i)\\bspf\\s*=\\s*pass\\b"@
}

/// The pattern of a passing DKIM verdict.
pub open spec fn dkim_pattern() -> Seq<char> {
    "(?i)\\bdkim\\s*=\\s*pass\\b"@
}

/// The header is an `Authentication-Results` header (name in any case) whose
/// text value holds a match of `pattern`.
pub open spec fn header_says(h: (Seq<char>, Option<Seq<char>>), pattern: Seq<char>) -> bool {
    eq_ignore_ascii_case_spec(h.0, "Authentication-Results"@) && match h.1 {
        Some(v) => found(pattern, v),
        None => false,
    }
}

/// Some header says `pattern` (see `header_says`).
pub open spec fn auth_header_matches(headers: Seq<(Seq<char>, Option<Seq<char>>)>, pattern: Seq<char>) -> bool {
    exists|i: int| 0 <= i < headers.len() && #[trigger] header_says(headers[i], pattern)
}

/// The SPF and DKIM verdicts of an e-mail: whether some `Authentication-Results`
/// header says `spf=pass`, and whether some says `dkim=pass`.
pub fn check_authentication_results(f: &EmailFields) -> (r: (bool, bool))
    ensures
        r.0 == auth_header_matches(f@.headers, spf_pattern()),
        r.1 == auth_header_matches(f@.headers, dkim_pattern()),
{
    let name = chars_of("Authentication-Results");
    let mut spf = false;
    let mut dkim = false;
    let ghost hv = f@.headers;
    let mut i: usize = 0;
    while i < f.headers.len()
        invariant
            i <= f.headers@.len(),
            hv == f@.headers,
            name@ == "Authentication-Results"@,
            spf == exists|j: int| 0 <= j < i && #[trigger] header_says(hv[j], spf_pattern()),
            dkim == exists|j: int| 0 <= j < i && #[trigger] header_says(hv[j], dkim_pattern()),
        decreases f.headers@.len() - i,
    {
        assert(hv[i as int] == (f.headers@[i as int].0@, opt_view(f.headers@[i as int].1)));
        let hn = chars_of(f.headers[i].0.as_str());
        if eq_ignore_ascii_case_chars(hn.as_slice(), name.as_slice()) {
            match &f.headers[i].1 {
                Some(v) => {
                    if is_found("(?i)\\bspf\\s*=\\s*pass\\b", v.as_str()) {
                        spf = true;
                    }
                    if is_found("(?i)\\bdkim\\s*=\\s*pass\\b", v.as_str()) {
                        dkim = true;
                    }
                },
                None => {},
            }
        }
        proof {
            if header_says(hv[i as int], spf_pattern()) {
                assert(spf);
            }
            if header_says(hv[i as int], dkim_pattern()) {
                assert(dkim);
            }
        }
        i = i + 1;
    }
    (spf, dkim)
}

} // verus!
