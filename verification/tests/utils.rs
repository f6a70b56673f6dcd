use nanobot::agent::utils::{
    parse_system_message_target, persist_outcome, persisted_reference, result_file_names, tool_result_fits,
    truncate_result,
};

struct ParseTargetCase {
    name: &'static str,
    chat_id: &'static str,
    expect_channel: &'static str,
    expect_chat_id: &'static str,
    expect_session_key: &'static str,
}

#[test]
fn parse_system_message_target_various_cases() {
    let test_vector = [
        ParseTargetCase {
            name: "标准格式 - telegram:12345",
            chat_id: "telegram:12345",
            expect_channel: "telegram",
            expect_chat_id: "12345",
            expect_session_key: "telegram:12345",
        },
        ParseTargetCase {
            name: "标准格式 - slack:channel-general",
            chat_id: "slack:channel-general",
            expect_channel: "slack",
            expect_chat_id: "channel-general",
            expect_session_key: "slack:channel-general",
        },
        ParseTargetCase {
            name: "无分隔符 - 使用默认 cli",
            chat_id: "simple_id",
            expect_channel: "cli",
            expect_chat_id: "simple_id",
            expect_session_key: "cli:simple_id",
        },
        ParseTargetCase {
            name: "多个冒号 - 只分割第一个",
            chat_id: "wechat:group:123",
            expect_channel: "wechat",
            expect_chat_id: "group:123",
            expect_session_key: "wechat:group:123",
        },
        ParseTargetCase {
            name: "空字符串前缀",
            chat_id: ":test_id",
            expect_channel: "",
            expect_chat_id: "test_id",
            expect_session_key: ":test_id",
        },
    ];

    for case in test_vector {
        let (channel, chat_id, session_key) = parse_system_message_target(case.chat_id);

        assert_eq!(channel, case.expect_channel, "case[{}]: channel mismatch", case.name);
        assert_eq!(chat_id, case.expect_chat_id, "case[{}]: chat_id mismatch", case.name);
        assert_eq!(session_key, case.expect_session_key, "case[{}]: session_key mismatch", case.name);
    }
}

#[test]
fn persist_small_result_returns_unchanged() {
    assert!(tool_result_fits("short result", 16000));
}

#[test]
fn persist_exactly_at_threshold_returns_unchanged() {
    let result = "y".repeat(16000);
    assert!(tool_result_fits(&result, 16000));
    assert!(!tool_result_fits(&"y".repeat(16001), 16000));
}

#[test]
fn truncated_result_keeps_both_ends() {
    let text = format!("{}{}", "a".repeat(10), "b".repeat(10));
    assert_eq!(truncate_result(&text, 8), "aaaa\n\n[... 12 chars truncated ...]\n\nbbbb");
}

#[test]
fn persisted_reference_has_preview_and_path() {
    let big = "x".repeat(20000);
    let out = persisted_reference(&big, "/w/.nanobot/tool-results/test:chat/call1.txt");
    assert!(out.starts_with(&"x".repeat(1200)));
    assert!(!out.starts_with(&"x".repeat(1201)));
    assert!(out.contains("20000 chars total"));
    assert!(out.ends_with("full output saved to /w/.nanobot/tool-results/test:chat/call1.txt]"));
}

#[test]
fn persist_outcome_saved_or_cut() {
    assert_eq!(result_file_names("call1"), ("call1.txt".to_string(), "call1.txt.tmp".to_string()));
    let text = format!("{}{}", "a".repeat(10), "b".repeat(10));
    assert_eq!(persist_outcome(&text, 8, None), "aaaa\n\n[... 12 chars truncated ...]\n\nbbbb");
    assert_eq!(
        persist_outcome(&text, 8, Some("/w/call1.txt")),
        format!("{text}\n\n[... truncated 20 chars total — full output saved to /w/call1.txt]")
    );
}
