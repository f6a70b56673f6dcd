use nanobot::channels::email_parse::{check_authentication_results, extract_text_body, html_to_text, read_email, EmailFields};
use nanobot::channels::email::{
    decode_html_entities, is_allowed, is_missing_mailbox_error, is_stale_imap_error, normalize_address,
    remember_processed_uid, reply_subject, UidSet, MAX_PROCESSED_UIDS,
};

#[test]
fn normalize_plain_address() {
    assert_eq!(normalize_address("User@Example.COM"), "user@example.com");
}

#[test]
fn normalize_angle_bracket_address() {
    assert_eq!(normalize_address("John Doe <john@example.com>"), "john@example.com");
}

#[test]
fn normalize_bare_angle_brackets() {
    assert_eq!(normalize_address("<alice@test.org>"), "alice@test.org");
}

#[test]
fn normalize_empty_string() {
    assert_eq!(normalize_address(""), "");
    assert_eq!(normalize_address("   "), "");
}

#[test]
fn normalize_no_at_sign() {
    assert_eq!(normalize_address("not-an-email"), "");
}

#[test]
fn normalize_empty_brackets_fall_back_to_whole_value() {
    assert_eq!(normalize_address("a@b.c <>"), "a@b.c <>");
    assert_eq!(normalize_address("x <y@z.com"), "x <y@z.com");
}

#[test]
fn decode_entities_in_order() {
    assert_eq!(decode_html_entities("&amp; &lt; &gt; &quot; &#39;"), "& < > \" '");
    assert_eq!(decode_html_entities("&apos;&nbsp;&amp;lt;"), "' <");
}

#[test]
fn html_br_and_p_tags() {
    let html = "Hello<br>World<br/>End</p>Next";
    let text = html_to_text(html);
    assert!(text.contains("Hello\nWorld\nEnd\nNext"));
}

#[test]
fn html_strip_tags() {
    let html = "<b>bold</b> and <i>italic</i>";
    assert_eq!(html_to_text(html), "bold and italic");
}

#[test]
fn html_decode_entities() {
    let html = "&amp; &lt; &gt; &quot; &#39;";
    assert_eq!(html_to_text(html), "& < > \" '");
}

#[test]
fn auth_results_both_pass() {
    let raw = b"Authentication-Results: mx.example.com; spf=pass; dkim=pass\r\n\r\nBody";
    let msg = read_email(raw).unwrap();
    let (spf, dkim) = check_authentication_results(&msg);
    assert!(spf);
    assert!(dkim);
}

#[test]
fn auth_results_spf_fail() {
    let raw = b"Authentication-Results: mx.example.com; spf=fail; dkim=pass\r\n\r\nBody";
    let msg = read_email(raw).unwrap();
    let (spf, dkim) = check_authentication_results(&msg);
    assert!(!spf);
    assert!(dkim);
}

#[test]
fn auth_results_missing() {
    let raw = b"Subject: test\r\n\r\nBody";
    let msg = read_email(raw).unwrap();
    let (spf, dkim) = check_authentication_results(&msg);
    assert!(!spf);
    assert!(!dkim);
}

#[test]
fn extract_plain_text_body() {
    let raw = b"Content-Type: text/plain\r\n\r\nHello world";
    let msg = read_email(raw).unwrap();
    assert_eq!(extract_text_body(&msg), "Hello world");
}

#[test]
fn extract_html_body_fallback() {
    let raw = b"Content-Type: text/html\r\n\r\n<p>Hello <b>world</b></p>";
    let msg = read_email(raw).unwrap();
    let text = extract_text_body(&msg);
    assert!(text.contains("Hello world"));
}

#[test]
fn html_only_fields_use_regex_conversion() {
    let f = EmailFields {
        from_address: None,
        subject: None,
        date: None,
        message_id: None,
        body_text: None,
        body_html: Some("<p>A &amp; B</p>C<BR />D".to_string()),
        headers: Vec::new(),
    };
    assert_eq!(extract_text_body(&f), "A & B\nC\nD");
}

#[test]
fn allowed_empty_list_allows_all() {
    assert!(is_allowed(&[], "anyone@example.com"));
}

#[test]
fn allowed_match_case_insensitive() {
    let list = vec!["User@Example.COM".to_string()];
    assert!(is_allowed(&list, "user@example.com"));
}

#[test]
fn allowed_no_match() {
    let list = vec!["allowed@example.com".to_string()];
    assert!(!is_allowed(&list, "other@example.com"));
}

#[test]
fn uid_eviction_on_overflow() {
    let mut processed = UidSet::new();
    let mut cycle = UidSet::new();

    for i in 0..MAX_PROCESSED_UIDS + 10 {
        remember_processed_uid(&i.to_string(), true, &mut cycle, &mut processed);
    }

    assert!(processed.len() <= MAX_PROCESSED_UIDS / 2 + 10);
    assert!(processed.contains(&(MAX_PROCESSED_UIDS + 9).to_string()));
}

#[test]
fn uid_no_dedupe_skips_processed() {
    let mut processed = UidSet::new();
    let mut cycle = UidSet::new();

    remember_processed_uid("uid1", false, &mut cycle, &mut processed);
    assert!(cycle.contains("uid1"));
    assert_eq!(processed.len(), 0);
}

#[test]
fn uid_empty_is_not_recorded() {
    let mut processed = UidSet::new();
    let mut cycle = UidSet::new();
    remember_processed_uid("", true, &mut cycle, &mut processed);
    assert_eq!(cycle.len(), 0);
    assert_eq!(processed.len(), 0);
}

#[test]
fn reply_subject_adds_prefix() {
    assert_eq!(reply_subject("Hello", "Re: "), "Re: Hello");
}

#[test]
fn reply_subject_keeps_existing_re() {
    assert_eq!(reply_subject("Re: Hello", "Re: "), "Re: Hello");
    assert_eq!(reply_subject("RE: Hello", "Re: "), "RE: Hello");
}

#[test]
fn reply_subject_empty_uses_default() {
    assert_eq!(reply_subject("", "Re: "), "Re: nanobot reply");
}

#[test]
fn stale_error_detection() {
    let err = imap::Error::Bad("disconnected for inactivity".to_string());
    assert!(is_stale_imap_error(&err.to_string()));
}

#[test]
fn missing_mailbox_detection() {
    let err = imap::Error::Bad("mailbox doesn't exist".to_string());
    assert!(is_missing_mailbox_error(&err.to_string()));
}

#[test]
fn non_stale_error() {
    let err = imap::Error::Bad("authentication failed".to_string());
    assert!(!is_stale_imap_error(&err.to_string()));
    assert!(!is_missing_mailbox_error(&err.to_string()));
}

#[test]
fn read_email_fields() {
    let raw = b"From: \"Bob\" <bob@example.org>\r\nDate: Tue, 1 Jul 2003 10:52:37 +0200\r\nSubject: Report\r\nMessage-ID: <abc@example.org>\r\nContent-Type: text/html\r\n\r\n<p>Hi</p>";
    let f = read_email(raw).unwrap();
    assert_eq!(f.from_address.as_deref(), Some("bob@example.org"));
    assert_eq!(f.subject.as_deref(), Some("Report"));
    assert_eq!(f.message_id.as_deref(), Some("abc@example.org"));
    assert_eq!(f.date.as_deref(), Some("2003-07-01T10:52:37+02:00"));
    assert_eq!(f.body_html.as_deref(), Some("<p>Hi</p>"));
    assert!(f.headers.iter().any(|(name, value)| name == "Subject" && value.as_deref() == Some("Report")));
    assert!(read_email(b"").is_none());
}
