use chrono::Datelike;
use nanobot::channels::email::UidSet;
use nanobot::channels::email_fetch::{
    between_dates_query, collect_self_addresses, format_imap_date, handle_fetched, inbound_from_email, mailbox_name,
    new_messages_query, plan_reply, poll_interval_secs, retry_fetch, select_fetch_ids, select_outcome, sequence_set,
    sort_ids, truncate_body, EmailConfig, EmailThreads, FetchOutcome, ImapConfig, ImapDate, SelectOutcome,
    ReplyPlan, SmtpConfig,
};
use nanobot::channels::email_send::reply_mailboxes;
use nanobot::channels::error::ChannelError;
use nanobot::channels::messages::{MetaValue, OutboundMessage};

fn s(x: &str) -> String {
    x.to_string()
}

fn imap(username: &str) -> ImapConfig {
    ImapConfig {
        host: String::new(),
        port: 0,
        username: s(username),
        password: String::new(),
        mailbox: String::new(),
        use_ssl: false,
        use_tls: false,
    }
}

fn smtp(host: &str, username: &str, from_address: &str) -> SmtpConfig {
    SmtpConfig {
        host: s(host),
        port: 0,
        username: s(username),
        password: String::new(),
        from_address: s(from_address),
        use_ssl: false,
        use_tls: false,
    }
}

fn config(imap: ImapConfig, smtp: SmtpConfig) -> EmailConfig {
    EmailConfig {
        enabled: false,
        consent_granted: false,
        imap,
        smtp,
        auto_reply_enabled: false,
        poll_interval_seconds: 0,
        mark_seen: false,
        max_body_chars: 0,
        subject_prefix: String::new(),
        allow_from: Vec::new(),
        verify_spf: false,
        verify_dkim: false,
    }
}

#[test]
fn self_addresses_dedup() {
    let config = config(imap("me@example.com"), smtp("", "me@example.com", "Me <me@example.com>"));
    let addrs = collect_self_addresses(&config);
    assert_eq!(addrs.len(), 1);
    assert!(addrs.iter().any(|a| a == "me@example.com"));
}

#[test]
fn self_addresses_keep_order_and_skip_empty() {
    let config = config(imap("B@x.org"), smtp("", "not-an-address", "a@x.org"));
    assert_eq!(collect_self_addresses(&config), vec![s("a@x.org"), s("b@x.org")]);
}

fn date(d: chrono::NaiveDate) -> ImapDate {
    ImapDate { year: d.year(), month: d.month(), day: d.day() }
}

#[test]
fn imap_date_format() {
    let d = chrono::NaiveDate::from_ymd_opt(2026, 3, 10).unwrap();
    assert_eq!(format_imap_date(&date(d)), "10-Mar-2026");
}

#[test]
fn imap_date_january() {
    let d = chrono::NaiveDate::from_ymd_opt(2026, 1, 5).unwrap();
    assert_eq!(format_imap_date(&date(d)), "05-Jan-2026");
}

#[test]
fn imap_date_negative_year() {
    assert_eq!(format_imap_date(&ImapDate { year: -44, month: 12, day: 31 }), "31-Dec--44");
}

#[test]
fn queries() {
    let mut c = config(imap(""), smtp("", "", ""));
    c.mark_seen = true;
    let q = new_messages_query(&c);
    assert_eq!(q.criteria, "UNSEEN");
    assert!(q.mark_seen && q.dedupe);
    assert_eq!(q.limit, 0);
    let a = ImapDate { year: 2026, month: 3, day: 10 };
    let b = ImapDate { year: 2026, month: 3, day: 12 };
    let q2 = between_dates_query(&a, &b, 0).unwrap();
    assert_eq!(q2.criteria, "SINCE 10-Mar-2026 BEFORE 12-Mar-2026");
    assert!(!q2.mark_seen && !q2.dedupe);
    assert_eq!(q2.limit, 1);
    assert!(between_dates_query(&b, &a, 5).is_none());
    assert!(between_dates_query(&a, &a, 5).is_none());
    assert_eq!(poll_interval_secs(&c), 5);
    c.poll_interval_seconds = 60;
    assert_eq!(poll_interval_secs(&c), 60);
    assert_eq!(mailbox_name(&c), "INBOX");
    c.imap.mailbox = s("Archive");
    assert_eq!(mailbox_name(&c), "Archive");
}

#[test]
fn fetch_ids() {
    assert_eq!(sort_ids(&[5, 1, 4, 1, 3]), vec![1, 1, 3, 4, 5]);
    assert_eq!(select_fetch_ids(&[9, 2, 7, 4], 2), vec![7, 9]);
    assert_eq!(select_fetch_ids(&[9, 2, 7, 4], 0), vec![2, 4, 7, 9]);
    assert_eq!(select_fetch_ids(&[3], 5), vec![3]);
    assert_eq!(sequence_set(&[2, 10, 33]), "2,10,33");
    assert_eq!(sequence_set(&[]), "");
}

#[test]
fn body_truncation() {
    assert_eq!(truncate_body("hello", 10), "hello");
    assert_eq!(truncate_body("hello", 3), "hel");
    assert_eq!(truncate_body("héllo", 2), "h");
    assert_eq!(truncate_body("日本", 4), "日");
    assert_eq!(truncate_body("日本", 0), "");
}

fn accepting_config() -> EmailConfig {
    let mut c = config(imap("bot@example.com"), smtp("smtp.example.com", "bot@example.com", ""));
    c.mark_seen = true;
    c.max_body_chars = 12000;
    c
}

#[test]
fn fetched_email_is_accepted() {
    let c = accepting_config();
    let own = collect_self_addresses(&c);
    let q = new_messages_query(&c);
    let mut cycle = UidSet::new();
    let mut processed = UidSet::new();
    let raw = b"From: Alice <Alice@Example.com>\r\nSubject: Hi\r\nMessage-ID: <m1@example.com>\r\n\r\nHello there";
    match handle_fetched(&c, &own, &q, Some(42), Some(raw), &mut cycle, &mut processed) {
        FetchOutcome::Accepted { email, mark_seen } => {
            assert!(mark_seen);
            assert_eq!(email.sender, "alice@example.com");
            assert_eq!(email.subject, "Hi");
            assert_eq!(email.message_id, "m1@example.com");
            assert_eq!(
                email.content,
                "[EMAIL-CONTEXT] Email received.\nFrom: alice@example.com\nSubject: Hi\nDate: \n\nHello there"
            );
            assert!(matches!(email.metadata.get("uid"), Some(MetaValue::Text(u)) if u == "42"));
            let inbound = inbound_from_email(&email);
            assert_eq!(inbound.channel, "email");
            assert_eq!(inbound.chat_id, "alice@example.com");
        },
        _ => panic!("expected Accepted"),
    }
    assert!(cycle.contains("42"));
    assert!(processed.contains("42"));
    let again = handle_fetched(&c, &own, &q, Some(42), Some(raw), &mut cycle, &mut processed);
    assert!(matches!(again, FetchOutcome::Skipped));
}

#[test]
fn fetched_email_is_dropped() {
    let mut c = accepting_config();
    let own = collect_self_addresses(&c);
    let q = new_messages_query(&c);
    let mut cycle = UidSet::new();
    let mut processed = UidSet::new();
    let own_mail = b"From: bot@example.com\r\n\r\nx";
    assert!(matches!(
        handle_fetched(&c, &own, &q, Some(1), Some(own_mail), &mut cycle, &mut processed),
        FetchOutcome::Dropped { mark_seen: true }
    ));
    c.verify_spf = true;
    let unsigned = b"From: eve@example.com\r\n\r\nx";
    assert!(matches!(
        handle_fetched(&c, &own, &q, Some(2), Some(unsigned), &mut cycle, &mut processed),
        FetchOutcome::Dropped { mark_seen: false }
    ));
    c.verify_spf = false;
    c.allow_from = vec![s("friend@example.com")];
    assert!(matches!(
        handle_fetched(&c, &own, &q, Some(3), Some(unsigned), &mut cycle, &mut processed),
        FetchOutcome::Dropped { mark_seen: true }
    ));
    let no_sender = b"Subject: x\r\n\r\nx";
    assert!(matches!(
        handle_fetched(&c, &own, &q, Some(4), Some(no_sender), &mut cycle, &mut processed),
        FetchOutcome::Skipped
    ));
    assert!(!cycle.contains("4"));
    assert!(matches!(handle_fetched(&c, &own, &q, Some(5), None, &mut cycle, &mut processed), FetchOutcome::Skipped));
}

#[test]
fn empty_body_is_marked() {
    let c = accepting_config();
    let own = collect_self_addresses(&c);
    let q = new_messages_query(&c);
    let mut cycle = UidSet::new();
    let mut processed = UidSet::new();
    let raw = b"From: a@b.c\r\n\r\n";
    match handle_fetched(&c, &own, &q, None, Some(raw), &mut cycle, &mut processed) {
        FetchOutcome::Accepted { email, .. } => {
            assert!(email.content.ends_with("\n\n(empty email body)"));
            assert!(email.metadata.get("uid").is_none());
        },
        _ => panic!("expected Accepted"),
    }
}

#[test]
fn fetch_retry_and_select() {
    assert!(retry_fetch(0, "IO error: connection reset by peer"));
    assert!(!retry_fetch(1, "IO error: connection reset by peer"));
    assert!(!retry_fetch(0, "authentication failed"));
    assert!(matches!(select_outcome(None), SelectOutcome::Proceed));
    assert!(matches!(select_outcome(Some("NO [NONEXISTENT] Mailbox doesn't exist")), SelectOutcome::SkipPoll));
    assert!(matches!(select_outcome(Some("permission denied")), SelectOutcome::Fail));
}

#[test]
fn reply_plans() {
    let mut c = accepting_config();
    c.subject_prefix = s("Re: ");
    let mut threads = EmailThreads::new();
    let msg = OutboundMessage::new("email", "  alice@example.com ", "answer");
    assert!(plan_reply(&c, &msg, &threads).is_none());
    c.consent_granted = true;
    let plan = plan_reply(&c, &msg, &threads).unwrap();
    assert_eq!(plan.to, "alice@example.com");
    assert_eq!(plan.from, "bot@example.com");
    assert_eq!(plan.subject, "Re: nanobot reply");
    assert!(plan.in_reply_to.is_none());

    let c2 = accepting_config();
    let own = collect_self_addresses(&c2);
    let q = new_messages_query(&c2);
    let mut cycle = UidSet::new();
    let mut processed = UidSet::new();
    let raw = b"From: alice@example.com\r\nSubject: Lunch\r\nMessage-ID: <m7@x>\r\n\r\nok?";
    if let FetchOutcome::Accepted { email, .. } = handle_fetched(&c2, &own, &q, Some(7), Some(raw), &mut cycle, &mut processed) {
        threads.record(&email);
    } else {
        panic!("expected Accepted");
    }
    assert!(plan_reply(&c, &msg, &threads).is_none());
    let forced = OutboundMessage::new("email", "alice@example.com", "x").add_metadata("force_send", MetaValue::Bool(true));
    let plan = plan_reply(&c, &forced, &threads).unwrap();
    assert_eq!(plan.subject, "Re: Lunch");
    assert_eq!(plan.in_reply_to.as_deref(), Some("m7@x"));
    c.auto_reply_enabled = true;
    let with_subject = msg.add_metadata("subject", MetaValue::Text(s("  Custom  ")));
    assert_eq!(plan_reply(&c, &with_subject, &threads).unwrap().subject, "Custom");
    c.smtp.host = String::new();
    assert!(plan_reply(&c, &forced, &threads).is_none());
}

fn plan(from: &str, to: &str) -> ReplyPlan {
    ReplyPlan { to: s(to), from: s(from), subject: s("Re: hi"), in_reply_to: None }
}

#[test]
fn reply_mailboxes_parse_or_name_the_bad_address() {
    match reply_mailboxes(&plan("Bot <bot@example.com>", "alice@example.com")) {
        Ok((from, to)) => {
            assert_eq!(from.email.to_string(), "bot@example.com");
            assert_eq!(from.name.as_deref(), Some("Bot"));
            assert_eq!(to.email.to_string(), "alice@example.com");
        }
        Err(e) => panic!("expected both to parse: {e:?}"),
    }
    match reply_mailboxes(&plan("not an address", "alice@example.com")) {
        Err(ChannelError::SendFailed(m)) => assert!(m.starts_with("invalid from address: ")),
        _ => panic!("expected a bad sender"),
    }
    match reply_mailboxes(&plan("bot@example.com", "@@")) {
        Err(ChannelError::SendFailed(m)) => assert!(m.starts_with("invalid to address: ")),
        _ => panic!("expected a bad recipient"),
    }
}

#[test]
fn imap_date_validity() {
    assert!(ImapDate { year: 2024, month: 2, day: 29 }.is_valid());
    assert!(!ImapDate { year: 2024, month: 13, day: 1 }.is_valid());
    assert!(!ImapDate { year: 2024, month: 1, day: 0 }.is_valid());
}
