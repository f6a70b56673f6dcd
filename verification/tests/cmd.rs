use nanobot::agent::cmd::{
    format_uptime, is_stop_cmd, new_cmd_busy, new_cmd_outcome, parse_command, stop_reply,
    unsupported_command_reply, Command, CommandKind, ConsolidatingSet, DreamCmd, DreamLogCmd,
    DreamRestoreCmd, HelpCmd, RestartCmd, StatusCmd, Usage,
};
use nanobot::channels::messages::InboundMessage;

/// Verify command sub-modules are properly exported
#[test]
fn command_submodules_exported() {
    let _help_cmd: HelpCmd = HelpCmd;
}

/// Verify help message format
#[test]
fn message_format() {
    let expected = "🐈 nanobot commands:\n/new — Start a new conversation\n/help — Show available commands";

    assert!(expected.contains("nanobot commands"));
    assert!(expected.contains("/new"));
    assert!(expected.contains("/help"));
    assert!(expected.contains("Start a new conversation"));
    assert!(expected.contains("Show available commands"));
}

/// Verify that NewCmd struct can be created
#[test]
fn struct_creation() {}

/// Verify the expected success message format
#[test]
fn success_message_format() {
    let expected = "New session started.";
    assert_eq!(expected, "New session started.");
}

/// Verify the expected error message for consolidation in progress
#[test]
fn consolidation_in_progress_message() {
    let expected = "Session is already being consolidated. Please try again later.";
    assert!(expected.contains("already being consolidated"));
    assert!(expected.contains("Please try again later"));
}

/// Verify the expected error message for memory archival failure
#[test]
fn memory_failure_message_format() {
    let error_msg = "Memory archival failed, session not cleared. Please try again: {error}";
    assert!(error_msg.contains("Memory archival failed"));
    assert!(error_msg.contains("session not cleared"));
    assert!(error_msg.contains("Please try again"));
}

/// Verify the expected error message for session save failure
#[test]
fn session_save_failure_message_format() {
    let error_msg = "Failed to save session: {error}";
    assert!(error_msg.contains("Failed to save session"));
}

#[test]
fn uptime_format() {
    assert_eq!(format_uptime(0), "0s");
    assert_eq!(format_uptime(59), "59s");
    assert_eq!(format_uptime(60), "1m 0s");
    assert_eq!(format_uptime(3661), "1h 1m 1s");
    assert_eq!(format_uptime(90061), "1d 1h 1m 1s");
}

fn status(model: &str, usage: Option<Usage>, count: usize) -> StatusCmd {
    StatusCmd {
        model: model.to_string(),
        version: "0.1.0".to_string(),
        uptime_secs: 0,
        last_usage: usage,
        session_message_count: count,
    }
}

#[test]
fn status_contains_version() {
    let msg = InboundMessage::new("test", "user", "chat", "/status");
    let result = status("test-model", None, 0).run(msg, "test:chat".to_string()).unwrap();
    assert!(result.contains("nanobot v"));
}

#[test]
fn status_contains_model() {
    let msg = InboundMessage::new("test", "user", "chat", "/status");
    let result = status("kimi-k2-4-6", None, 5).run(msg, "test:chat".to_string()).unwrap();
    assert!(result.contains("kimi-k2-4-6"));
    assert!(result.contains("5"));
}

#[test]
fn status_with_usage() {
    let msg = InboundMessage::new("test", "user", "chat", "/status");
    let usage = Usage { input_tokens: 1234, output_tokens: 567 };
    let result = status("test", Some(usage), 0).run(msg, "test:chat".to_string()).unwrap();
    assert!(result.contains("1234"));
    assert!(result.contains("567"));
}

#[test]
fn status_without_usage() {
    let msg = InboundMessage::new("test", "user", "chat", "/status");
    let result = status("test", None, 0).run(msg, "test:chat".to_string()).unwrap();
    assert!(result.contains("N/A"));
}

#[test]
fn status_exact_text() {
    let cmd = StatusCmd {
        model: "m".to_string(),
        version: "1.2.3".to_string(),
        uptime_secs: 61,
        last_usage: Some(Usage { input_tokens: 7, output_tokens: 8 }),
        session_message_count: 3,
    };
    let msg = InboundMessage::new("test", "user", "chat", "/status");
    assert_eq!(
        cmd.run(msg, "k".to_string()).unwrap(),
        "🐈 nanobot v1.2.3\nModel: m\nTokens (last call): 7 in / 8 out\nSession messages: 3\nUptime: 1m 1s"
    );
}

#[test]
fn dream_cmd_returns_result() {
    let cmd = DreamCmd { result: "Dream completed: processed 5 entries, 2 files changed (MEMORY.md, USER.md)".into() };
    let msg = InboundMessage::new("test", "user", "chat", "/dream");
    let result = cmd.run(msg, "test:chat".into()).unwrap();
    assert!(result.contains("processed 5 entries"));
    assert!(result.contains("MEMORY.md"));
}

#[test]
fn dream_log_cmd_returns_output() {
    let log = "Memory change history (last 10):\n\nabc1234 | 2026-01-15 | dream: process 5 entries";
    let cmd = DreamLogCmd { log_output: log.into() };
    let msg = InboundMessage::new("test", "user", "chat", "/dream-log");
    let result = cmd.run(msg, "test:chat".into()).unwrap();
    assert!(result.contains("abc1234"));
    assert!(result.contains("Memory change history"));
}

#[test]
fn dream_restore_cmd_returns_output() {
    let cmd = DreamRestoreCmd { restore_output: "Memory restored to commit abc1234.".into() };
    let msg = InboundMessage::new("test", "user", "chat", "/dream-restore abc1234");
    let result = cmd.run(msg, "test:chat".into()).unwrap();
    assert!(result.contains("restored to commit abc1234"));
}

#[test]
fn help_lists_commands() {
    let msg = InboundMessage::new("test_channel", "user", "test_chat", "/help");
    let text = HelpCmd.run(msg, "k".to_string()).unwrap();
    assert!(text.starts_with("🐈 nanobot commands:"));
    assert!(text.contains("/restart — Restart the agent process"));
}

#[test]
fn stop_with_no_running_tasks() {
    assert_eq!(stop_reply(0), "Stopped.");
}

#[test]
fn stop_reports_cancelled_tasks() {
    assert_eq!(stop_reply(3), "Stopped. Cancelled 3 background task(s).");
}

#[test]
fn stop_command_detection() {
    assert!(is_stop_cmd("/stop"));
    assert!(is_stop_cmd("/STOP  \n"));
    assert!(!is_stop_cmd(" /stop"));
    assert!(!is_stop_cmd("/stopped"));
}

#[test]
fn restart_replies() {
    assert_eq!(RestartCmd.reply(None, None), Ok("Restarting...".to_string()));
    assert_eq!(
        RestartCmd.reply(Some("no exe"), None),
        Err("Failed to get current executable: no exe".to_string())
    );
    assert_eq!(
        RestartCmd.reply(None, Some("denied")),
        Err("Failed to spawn new process: denied".to_string())
    );
}

#[test]
fn command_parsing() {
    assert!(parse_command("hello").is_none());
    assert!(matches!(parse_command("/help"), Some(CommandKind::Help)));
    assert!(matches!(parse_command("/NEW  "), Some(CommandKind::New)));
    assert!(matches!(parse_command("/stop"), Some(CommandKind::Stop)));
    assert!(matches!(parse_command("/Restart"), Some(CommandKind::Restart)));
    assert!(matches!(parse_command("/status\n"), Some(CommandKind::Status)));
    assert!(matches!(parse_command("/dream"), Some(CommandKind::Dream)));
    assert!(matches!(parse_command("/Dream  "), Some(CommandKind::Dream)));
    assert!(matches!(parse_command("/dream-log"), Some(CommandKind::Unsupported(_))));
    match parse_command("/Foo ") {
        Some(CommandKind::Unsupported(name)) => assert_eq!(name, "foo"),
        _ => panic!("expected an unsupported command"),
    }
    assert_eq!(unsupported_command_reply("foo"), "❌ Unsupported command: /foo\nTry /help for available commands");
}

#[test]
fn new_command_outcomes() {
    assert_eq!(new_cmd_outcome(None, None), Ok("New session started.".to_string()));
    assert_eq!(
        new_cmd_outcome(Some("llm down"), None),
        Err("Memory archival failed, session not cleared. Please try again: llm down".to_string())
    );
    assert_eq!(new_cmd_outcome(None, Some("disk full")), Err("Failed to save session: disk full".to_string()));
    assert_eq!(
        new_cmd_busy(),
        Err("Session is already being consolidated. Please try again later.".to_string())
    );
}

#[test]
fn consolidating_set_admits_one_task_per_session() {
    let mut set = ConsolidatingSet::new();
    assert!(set.try_begin("cli:a"));
    assert!(!set.try_begin("cli:a"));
    assert!(set.try_begin("cli:b"));
    assert!(set.contains("cli:a"));
    set.finish("cli:a");
    assert!(!set.contains("cli:a"));
    assert!(set.contains("cli:b"));
    assert!(set.try_begin("cli:a"));
}

#[test]
fn returns_correct_message() {
    let help = HelpCmd;
    let inbound = InboundMessage::new("test_channel", "user", "test_chat", "test message");
    assert_eq!(std::mem::size_of::<HelpCmd>(), 0, "HelpCmd should be a zero-sized type");
    let reply = help.run(inbound, "test_channel:test_chat".to_string()).unwrap();
    assert!(reply.contains("nanobot commands"));
}

#[test]
fn consolidation_rejected_when_already_in_progress() {
    let mut consolidating = ConsolidatingSet::new();
    let session_key = "test:concurrent";
    assert!(consolidating.try_begin(session_key));
    assert!(!consolidating.try_begin(session_key));
    assert!(consolidating.contains(session_key));
}

#[test]
fn consolidation_state_properly_managed() {
    let mut consolidating = ConsolidatingSet::new();
    let session_key = "test:state_management";
    assert!(!consolidating.contains(session_key), "consolidating should be empty initially");
    assert!(consolidating.try_begin(session_key));
    consolidating.finish(session_key);
    assert!(!consolidating.contains(session_key), "consolidating should be cleared after finishing");
}

#[test]
fn consolidation_state_independent_across_sessions() {
    let mut consolidating = ConsolidatingSet::new();
    let session_key_1 = "test:session_1";
    let session_key_2 = "test:session_2";
    assert!(consolidating.try_begin(session_key_1));
    assert!(consolidating.contains(session_key_1), "session_1 should be marked as consolidating");
    assert!(!consolidating.contains(session_key_2), "session_2 should NOT be marked as consolidating");
    assert!(consolidating.try_begin(session_key_2));
}
