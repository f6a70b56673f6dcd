use nanobot::channels::messages::{InboundMessage, MetaValue, Metadata, OutboundMessage};

struct OutboundCase {
    name: &'static str,
    channel: &'static str,
    chat_id: &'static str,
    content: &'static str,
    is_tool_hint: bool,
    expect_is_tool_hint: bool,
}

#[test]
fn inbound_message_construct() {
    let msg = InboundMessage::new("cli", "user123", "chat456", "Hello, world!");
    assert_eq!(msg.channel, "cli");
    assert_eq!(msg.sender_id, "user123");
    assert_eq!(msg.chat_id, "chat456");
    assert_eq!(msg.content, "Hello, world!");
    assert!(msg.metadata.is_empty());
}

#[test]
fn tests_inbound_message_construct() {
    let msg = InboundMessage::new("cli", "user123", "chat456", "Hello, world!");
    assert_eq!(msg.channel, "cli");
    assert_eq!(msg.sender_id, "user123");
    assert_eq!(msg.chat_id, "chat456");
    assert_eq!(msg.content, "Hello, world!");
    assert!(msg.metadata.is_empty());
}

#[test]
fn outbound_message_progress_construct() {
    let test_vector = [
        OutboundCase {
            name: "普通进度消息",
            channel: "cli",
            chat_id: "chat1",
            content: "thinking...",
            is_tool_hint: false,
            expect_is_tool_hint: false,
        },
        OutboundCase {
            name: "工具提示消息",
            channel: "telegram",
            chat_id: "chat2",
            content: "using tool...",
            is_tool_hint: true,
            expect_is_tool_hint: true,
        },
    ];
    for case in test_vector {
        let msg = OutboundMessage::progress(case.channel, case.chat_id, case.content, case.is_tool_hint);
        assert!(msg.is_progress(), "case[{}]: expected is_progress() to be true", case.name);
        assert_eq!(msg.is_tool_hint(), case.expect_is_tool_hint, "case[{}]: is_tool_hint() mismatch", case.name);
        assert_eq!(msg.content, case.content, "case[{}]: content mismatch", case.name);
        assert_eq!(msg.channel, case.channel, "case[{}]: channel mismatch", case.name);
        assert_eq!(msg.chat_id, case.chat_id, "case[{}]: chat_id mismatch", case.name);
    }
}

#[test]
fn tests_outbound_message_progress_construct() {
    let test_vector = [("普通进度消息", "thinking...", false), ("工具提示消息", "using tool...", true)];
    for (name, content, is_tool_hint) in test_vector {
        let msg = OutboundMessage::progress("cli", "chat1", content, is_tool_hint);
        assert!(msg.is_progress(), "case[{}]: expected is_progress() to be true", name);
        assert_eq!(msg.is_tool_hint(), is_tool_hint, "case[{}]: is_tool_hint() mismatch", name);
        assert_eq!(msg.content, content, "case[{}]: content mismatch", name);
    }
}

#[test]
fn outbound_message_construct() {
    let msg = OutboundMessage::new("telegram", "chat789", "Response content");
    assert_eq!(msg.channel, "telegram");
    assert_eq!(msg.chat_id, "chat789");
    assert_eq!(msg.content, "Response content");
    assert!(msg.metadata.is_empty());
}

#[test]
fn tests_outbound_message_construct() {
    let msg = OutboundMessage::new("telegram", "chat789", "Response content");
    assert_eq!(msg.channel, "telegram");
    assert_eq!(msg.chat_id, "chat789");
    assert_eq!(msg.content, "Response content");
    assert!(msg.metadata.is_empty());
}

#[test]
fn outbound_message_progress_detection() {
    let progress_msg = OutboundMessage::progress("cli", "chat1", "thinking...", false);
    assert!(progress_msg.is_progress());
    let mut normal_msg = OutboundMessage::new("cli", "chat1", "normal");
    assert!(!normal_msg.is_progress());
    normal_msg.metadata.insert("_progress", MetaValue::Bool(true));
    assert!(normal_msg.is_progress());
}

#[test]
fn tests_outbound_message_progress_detection() {
    let progress_msg = OutboundMessage::progress("cli", "chat1", "thinking...", false);
    assert!(progress_msg.is_progress());
    let normal_msg = OutboundMessage::new("cli", "chat1", "normal");
    assert!(!normal_msg.is_progress());
    let flagged = normal_msg.add_metadata("_progress", MetaValue::Bool(true));
    assert!(flagged.is_progress());
    let text_flag = OutboundMessage::new("cli", "chat1", "x").add_metadata("_progress", MetaValue::Text("true".into()));
    assert!(!text_flag.is_progress());
}

#[test]
fn outbound_message_tool_hint_detection() {
    let tool_hint = OutboundMessage::progress("cli", "chat1", "using tool...", true);
    assert!(tool_hint.is_tool_hint());
    let normal_progress = OutboundMessage::progress("cli", "chat1", "thinking...", false);
    assert!(!normal_progress.is_tool_hint());
    let normal_msg = OutboundMessage::new("cli", "chat1", "normal");
    assert!(!normal_msg.is_tool_hint());
}

#[test]
fn tests_outbound_message_tool_hint_detection() {
    let tool_hint = OutboundMessage::progress("cli", "chat1", "using tool...", true);
    assert!(tool_hint.is_tool_hint());
    let normal_progress = OutboundMessage::progress("cli", "chat1", "thinking...", false);
    assert!(!normal_progress.is_tool_hint());
    let normal_msg = OutboundMessage::new("cli", "chat1", "normal");
    assert!(!normal_msg.is_tool_hint());
}

#[test]
fn message_basic() {
    let inbound = InboundMessage::new("cli", "user", "chat1", "Hello");
    let received = inbound.clone();
    assert_eq!(received.channel, "cli");
    assert_eq!(received.content, "Hello");
    let outbound = OutboundMessage::new("cli", "chat1", "World");
    let received = outbound.clone();
    assert_eq!(received.content, "World");
}

#[test]
fn progress_message() {
    let progress = OutboundMessage::progress("cli", "direct", "thinking...", false);
    assert!(progress.is_progress());
    assert!(!progress.is_tool_hint());
    let tool_hint = OutboundMessage::progress("cli", "direct", "using tool...", true);
    assert!(tool_hint.is_progress());
    assert!(tool_hint.is_tool_hint());
}

#[test]
fn parse_session_id() {
    let result = InboundMessage::from_session_id("cli:direct", "hello");
    assert!(result.is_some());
    let (channel, sender_id, chat_id) = result.unwrap();
    assert_eq!(channel, "cli");
    assert_eq!(sender_id, "user");
    assert_eq!(chat_id, "direct");
    let result = InboundMessage::from_session_id("telegram:123:456", "hello");
    assert!(result.is_some());
    let (channel, _sender_id, chat_id) = result.unwrap();
    assert_eq!(channel, "telegram");
    assert_eq!(chat_id, "123:456");
    assert!(InboundMessage::from_session_id("nocolon", "hello").is_none());
}

#[test]
fn session_key_and_metadata() {
    let m = InboundMessage::new("feishu", "ou_1", "oc_9", "hi").add_media("/tmp/a.png").add_metadata(
        "k",
        MetaValue::Text("v".into()),
    );
    assert_eq!(m.session_key(), "feishu:oc_9");
    assert_eq!(m.media, vec!["/tmp/a.png".to_string()]);
    assert!(matches!(m.metadata.get("k"), Some(MetaValue::Text(v)) if v == "v"));
    let mut md = Metadata::new();
    md.insert("a", MetaValue::Bool(false));
    md.insert("a", MetaValue::Bool(true));
    assert!(md.flag("a"));
}
