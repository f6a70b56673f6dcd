use std::cell::Cell;

use nanobot::agent::consolidation::{
    begin_consolidation, should_consolidate, ConsolidationRun, ConsolidationStart, RoundStep, MAX_CONSOLIDATION_ROUNDS, MAX_FAILURES_BEFORE_RAW_ARCHIVE,
};
use nanobot::agent::hook::{ChannelProgressTracker, CompositeHook, LoopHook, NoopHook};
use nanobot::agent::message_tool::{build_message, is_media_url, message_target, sent_summary, MessageParams};
use nanobot::agent::react::{
    format_tool_hint, max_iterations_reply, partition_tool_batches, strip_think, ReActReply, ReActState, ReActStep,
};
use nanobot::agent::routing::{
    command_reply, direct_inbound, dream_reply, failure_reply, is_scheduled, is_system_message, route_inbound, session_key_for,
    tool_result_text, FailureKind, Route, RunQueue, WhileBusy,
};
use nanobot::agent::cmd::{CommandKind, ConsolidatingSet};
use nanobot::agent::registration::{connects_mcp, extra_tools, ExtraTool};
use nanobot::agent::utils::parse_system_message_target;
use nanobot::channels::messages::InboundMessage;

fn s(x: &str) -> String {
    x.to_string()
}

// ---- hooks and progress ----

#[test]
fn noop_hook_does_not_panic() {
    let hook = NoopHook;
    assert!(hook.before_execute_tools("hello", &[]).is_empty());
    assert_eq!(hook.finalize_content(Some("test".into())), Some("test".into()));
    assert_eq!(hook.finalize_content(None), None);
}

#[test]
fn loop_hook_sends_progress_messages() {
    let hook = LoopHook::new("test_ch".into(), "test_chat".into());
    let msgs = hook.before_execute_tools("thinking about it", &[s("read_file(\"/tmp\")")]);
    assert_eq!(msgs.len(), 2);
    let msg1 = &msgs[0];
    assert!(msg1.is_progress());
    assert!(!msg1.is_tool_hint());
    assert_eq!(msg1.content, "thinking about it");
    assert_eq!(msg1.channel, "test_ch");
    assert_eq!(msg1.chat_id, "test_chat");
    let msg2 = &msgs[1];
    assert!(msg2.is_progress());
    assert!(msg2.is_tool_hint());
    assert!(msg2.content.contains("read_file"));
}

#[test]
fn loop_hook_strips_think_tags() {
    let hook = LoopHook::new("ch".into(), "chat".into());
    let result = hook.finalize_content(Some("<think>reasoning</think>Final answer".into()));
    assert_eq!(result, Some("Final answer".into()));
}

#[test]
fn loop_hook_skips_empty_thinking() {
    let hook = LoopHook::new("ch".into(), "chat".into());
    let msgs = hook.before_execute_tools("<think>only thinking</think>", &[s("web_search(\"q\")")]);
    assert_eq!(msgs.len(), 1);
    assert!(msgs[0].is_tool_hint());
    assert_eq!(msgs[0].content, "web_search(\"q\")");
}

#[test]
fn channel_tracker_sends_message() {
    let tracker = ChannelProgressTracker::new("cli".into(), "direct".into());
    let msg = tracker.message("thinking...", false);
    assert_eq!(msg.content, "thinking...");
    assert_eq!(msg.channel, "cli");
    assert_eq!(msg.chat_id, "direct");
}

#[test]
fn channel_tracker_sets_metadata() {
    let tracker = ChannelProgressTracker::new("cli".into(), "direct".into());
    let hint = tracker.message("tool", true);
    assert!(hint.is_progress());
    assert!(hint.is_tool_hint());
    let thought = tracker.message("thought", false);
    assert!(thought.is_progress());
    assert!(!thought.is_tool_hint());
}

#[test]
fn strip_think_variants() {
    assert_eq!(strip_think("  plain  "), "plain");
    assert_eq!(strip_think("a<think>x\ny</think>b</think>c"), "abc");
    assert_eq!(strip_think("<think>one</think> mid <think>two</think>"), "mid");
    assert_eq!(strip_think("<think>unclosed"), "<think>unclosed");
}

// ---- the reasoning loop ----

#[test]
fn react_gives_up_after_the_limit() {
    let mut st = ReActState::new(2);
    assert!(matches!(st.next_step(), ReActStep::CallModel));
    assert!(matches!(st.next_step(), ReActStep::CallModel));
    match st.next_step() {
        ReActStep::GiveUp(w) => assert_eq!(
            w,
            "I reached the maximum number of tool call iterations (2) without completing the task. You can try breaking the task into smaller steps."
        ),
        _ => panic!("expected GiveUp"),
    }
    assert_eq!(st.iteration, 2);
    let mut none = ReActState::new(0);
    assert!(matches!(none.next_step(), ReActStep::GiveUp(_)));
}

#[test]
fn react_final_content() {
    let st = ReActState::new(5);
    assert!(matches!(st.on_response("calling tools", 2), ReActReply::RunTools));
    match st.on_response("", 0) {
        ReActReply::Finish(c) => assert_eq!(c, "(empty)"),
        _ => panic!(),
    }
    match st.on_response("answer", 0) {
        ReActReply::Finish(c) => assert_eq!(c, "answer"),
        _ => panic!(),
    }
    let mut st2 = ReActState::new(1);
    st2.record_tool(s("read_file"));
    st2.record_tool(s("exec"));
    assert_eq!(st2.tools_used, vec![s("read_file"), s("exec")]);
    assert_eq!(max_iterations_reply(40).len(), max_iterations_reply(41).len());
}

#[test]
fn tool_hint_joins_previews() {
    assert_eq!(format_tool_hint(&[s("a(1)"), s("b(\"x\")")]), "a(1), b(\"x\")");
    assert_eq!(format_tool_hint(&[]), "");
}

#[test]
fn tool_batches() {
    let batches = partition_tool_batches(&[true, true, false, true, false, false, true]);
    assert_eq!(batches, vec![vec![0, 1], vec![2], vec![3], vec![4], vec![5], vec![6]]);
    assert_eq!(partition_tool_batches(&[true, true, true]), vec![vec![0, 1, 2]]);
    assert_eq!(partition_tool_batches(&[false, false]), vec![vec![0], vec![1]]);
    assert!(partition_tool_batches(&[]).is_empty());
}

// ---- consolidation ----

#[test]
fn consolidation_triggers_when_message_window_reached() {
    assert!(should_consolidate(0, 0, 10, 0, 10));
    assert!(!should_consolidate(0, 0, 9, 0, 10));
    assert!(!should_consolidate(0, 0, 15, 6, 10));
    assert!(should_consolidate(1000, 1000, 1, 0, 100));
    assert!(!should_consolidate(999, 1000, 500, 0, 10));
}

#[test]
fn consolidation_rounds() {
    let mut run = ConsolidationRun::new(1000, 3);
    assert_eq!(run.target, 500);
    assert!(matches!(run.next_round(400), RoundStep::Done));
    assert!(matches!(run.next_round(800), RoundStep::Cut(300)));
    assert!(matches!(run.next_round(501), RoundStep::Cut(1)));
    assert!(!run.finish_round(20, Some(12)));
    assert_eq!(run.last_consolidated, 12);
    assert!(!run.finish_round(30, None));
    assert!(!run.finish_round(30, None));
    assert!(run.finish_round(30, None));
    assert_eq!(run.last_consolidated, 30);
    assert_eq!(run.consecutive_failures, 0);
    assert!(!run.finish_round(40, None));
    assert_eq!(run.round, MAX_CONSOLIDATION_ROUNDS);
    assert!(matches!(run.next_round(10_000), RoundStep::Done));
    assert_eq!(MAX_FAILURES_BEFORE_RAW_ARCHIVE, 3);
}

// ---- routing ----

#[test]
fn process_message_routes_system_message_correctly() {
    let inbound = InboundMessage::new("system", "subagent", "telegram:12345", "task done");
    assert!(is_system_message(&inbound));
    let (channel, chat_id, key) = parse_system_message_target(&inbound.chat_id);
    assert_eq!(channel, "telegram");
    assert_eq!(chat_id, "12345");
    assert_eq!(key, "telegram:12345");
}

#[test]
fn process_message_preserves_non_system_routing() {
    let inbound = InboundMessage::new("cli", "user", "direct", "hi");
    assert!(!is_system_message(&inbound));
    assert_eq!(session_key_for(&inbound, None), "cli:direct");
    assert_eq!(session_key_for(&inbound, Some("custom:key")), "custom:key");
}

#[test]
fn scheduled_sessions_and_direct_calls() {
    assert!(is_scheduled("cron:job-1"));
    assert!(!is_scheduled("cli:direct"));
    let m = direct_inbound("Hello", None, None, &[s("/tmp/a.png")]);
    assert_eq!(m.channel, "cli");
    assert_eq!(m.chat_id, "direct");
    assert_eq!(m.sender_id, "user");
    assert_eq!(m.media, vec![s("/tmp/a.png")]);
    let m2 = direct_inbound("x", Some("feishu"), Some("oc_1"), &[]);
    assert_eq!(m2.channel, "feishu");
    assert_eq!(m2.chat_id, "oc_1");
}

#[test]
fn failure_and_command_replies() {
    assert_eq!(failure_reply("cli", "d", FailureKind::BuildMessages, "boom").content, "构建消息失败: boom");
    assert_eq!(failure_reply("cli", "d", FailureKind::Processing, "boom").content, "处理失败: boom");
    assert_eq!(failure_reply("cli", "d", FailureKind::Consolidation, "boom").content, "记忆整合任务失败: boom");
    assert_eq!(command_reply("cli", "d", Ok(s("done"))).content, "done");
    assert_eq!(command_reply("cli", "d", Err(s("failed"))).content, "failed");
}

#[test]
fn run_queue_keeps_arrival_order() {
    let mut q = RunQueue::new();
    assert!(q.next_pending().is_none());
    assert!(matches!(q.while_busy(Some(InboundMessage::new("cli", "u", "c", "first"))), WhileBusy::Queued));
    assert!(matches!(q.while_busy(Some(InboundMessage::new("cli", "u", "c", "second"))), WhileBusy::Queued));
    match q.while_busy(Some(InboundMessage::new("cli", "u", "c", "/STOP  "))) {
        WhileBusy::Stop(m) => assert_eq!(m.content, "/STOP  "),
        _ => panic!("expected Stop"),
    }
    assert!(matches!(q.while_busy(None), WhileBusy::Closed));
    assert_eq!(q.next_pending().unwrap().content, "first");
    assert_eq!(q.next_pending().unwrap().content, "second");
    assert!(q.next_pending().is_none());
}

// ---- the message tool ----

fn params(channel: Option<&str>, chat: Option<&str>, media: Vec<&str>) -> MessageParams {
    MessageParams {
        content: s("Hello"),
        channel: channel.map(s),
        chat_id: chat.map(s),
        media: media.into_iter().map(s).collect(),
    }
}

#[test]
fn default_channel_and_chat_id_from_context() {
    let (channel, chat) = message_target(&params(None, None, vec![]), "cli", "direct");
    assert_eq!(channel, "cli");
    assert_eq!(chat, "direct");
}

#[test]
fn custom_channel_and_chat_id() {
    let (channel, chat) = message_target(&params(Some("feishu"), Some("oc_1"), vec![]), "cli", "direct");
    assert_eq!(channel, "feishu");
    assert_eq!(chat, "oc_1");
}

#[test]
fn media_url_passthrough() {
    assert!(is_media_url("https://example.com/a.png"));
    assert!(is_media_url("http://example.com/a.png"));
    assert!(!is_media_url("images/a.png"));
    let m = build_message("cli", "direct", "Hello", &[s("https://example.com/a.png")]);
    assert_eq!(m.media, vec![s("https://example.com/a.png")]);
}

#[test]
fn send_basic_message() {
    let m = build_message("cli", "direct", "Hello", &[]);
    assert_eq!(m.content, "Hello");
    assert!(m.media.is_empty());
    assert_eq!(sent_summary("cli", "direct", "Hello", 0), "Message sent to cli:direct (5 chars)");
    assert_eq!(sent_summary("feishu", "oc_1", "你好", 2), "Message sent to feishu:oc_1 (6 chars, 2 media files)");
}


#[test]
fn tool_call_result_texts() {
    assert_eq!(tool_result_text(Ok("42")), "Tool Call Result:\n42");
    assert_eq!(tool_result_text(Err("no such tool")), "Tool Call Error: no such tool");
}

#[test]
fn route_inbound_sorts_system_commands_and_chat() {
    let sys = InboundMessage::new("system", "subagent", "telegram:12345", "task done");
    match route_inbound(&sys, None) {
        Route::System { channel, chat_id, session_key } => {
            assert_eq!(channel, "telegram");
            assert_eq!(chat_id, "12345");
            assert_eq!(session_key, "telegram:12345");
        }
        _ => panic!("expected a system route"),
    }
    let cmd = InboundMessage::new("cli", "user", "direct", "/Stop ");
    match route_inbound(&cmd, None) {
        Route::Command { kind, session_key } => {
            assert!(matches!(kind, CommandKind::Stop));
            assert_eq!(session_key, "cli:direct");
        }
        _ => panic!("expected a command route"),
    }
    let chat = InboundMessage::new("cli", "user", "direct", "hello");
    match route_inbound(&chat, Some("cron:job1")) {
        Route::Chat { session_key, scheduled } => {
            assert_eq!(session_key, "cron:job1");
            assert!(scheduled);
        }
        _ => panic!("expected a chat route"),
    }
    match route_inbound(&chat, None) {
        Route::Chat { session_key, scheduled } => {
            assert_eq!(session_key, "cli:direct");
            assert!(!scheduled);
        }
        _ => panic!("expected a chat route"),
    }
}

#[test]
fn dream_command_answers_with_run_result() {
    let msg = InboundMessage::new("test", "user", "chat", "/dream");
    let kind = match route_inbound(&msg, None) {
        Route::Command { kind, .. } => kind,
        _ => panic!("expected a command route"),
    };
    assert!(matches!(kind, CommandKind::Dream));
    let result = "Dream completed: processed 5 entries, 2 files changed (MEMORY.md, USER.md)";
    let reply = dream_reply("test", "chat", msg, "test:chat".to_string(), result.to_string());
    assert_eq!(reply.content, result);
    assert_eq!(reply.channel, "test");
    assert_eq!(reply.chat_id, "chat");
}

#[test]
fn consolidation_one_run_per_session_within_round_limit() {
    let mut consolidating = ConsolidatingSet::new();
    assert!(consolidating.try_begin("other:chat"));
    assert!(consolidating.try_begin("test:same_session"));
    // a second consolidation of the same session is refused
    assert!(!consolidating.try_begin("test:same_session"));
    let mut run = ConsolidationRun::new(100, 0);
    let mut rounds = 0;
    while let RoundStep::Cut(_) = run.next_round(1_000_000) {
        run.finish_round(1, None);
        rounds += 1;
    }
    assert_eq!(rounds, MAX_CONSOLIDATION_ROUNDS);
    consolidating.finish("test:same_session");
    assert!(!consolidating.contains("test:same_session"));
    assert!(consolidating.contains("other:chat"));
    consolidating.finish("other:chat");
    assert!(!consolidating.contains("other:chat"));
}

#[test]
fn registered_tools_follow_configuration() {
    assert!(!connects_mcp(0));
    assert!(connects_mcp(2));
    assert_eq!(extra_tools(0, None, false), vec![ExtraTool::Spawn, ExtraTool::Message]);
    assert_eq!(extra_tools(0, Some(3), false), vec![ExtraTool::Spawn, ExtraTool::Message]);
    assert_eq!(extra_tools(1, None, true), vec![ExtraTool::Cron, ExtraTool::Spawn, ExtraTool::Message]);
    assert_eq!(
        extra_tools(2, Some(2), true),
        vec![ExtraTool::Mcp(0), ExtraTool::Mcp(1), ExtraTool::Cron, ExtraTool::Spawn, ExtraTool::Message]
    );
}

#[test]
fn begin_consolidation_outcomes() {
    let mut set = ConsolidatingSet::new();
    assert!(matches!(begin_consolidation(&mut set, "s1", false, 1000, 0), ConsolidationStart::NotNeeded));
    assert!(!set.contains("s1"));
    match begin_consolidation(&mut set, "s1", true, 1000, 4) {
        ConsolidationStart::Started(run) => {
            assert_eq!(run.round, 0);
            assert_eq!(run.target, 500);
            assert_eq!(run.last_consolidated, 4);
        }
        _ => panic!("expected a start"),
    }
    assert!(set.contains("s1"));
    assert!(matches!(begin_consolidation(&mut set, "s1", true, 1000, 4), ConsolidationStart::Busy));
    set.finish("s1");
    assert!(!set.contains("s1"));
}

// ---- composite hooks: the hooks themselves are plain closures here ----

/// Runs every hook of a composite once, as its `before_*` calls do.
fn run_composite(composite: &CompositeHook, hooks: &[&dyn Fn() -> Result<(), String>]) -> (Result<(), String>, Vec<String>) {
    let mut call = composite.start(None);
    while let Some(i) = call.next_hook() {
        call.record_result(hooks[i]());
    }
    call.finish()
}

/// Runs the final-content pipeline of a composite.
fn finalize(composite: &CompositeHook, hooks: &[&dyn Fn(Option<String>) -> Option<String>], content: Option<String>) -> Option<String> {
    let mut call = composite.start(content);
    while let Some(i) = call.next_hook() {
        let input = call.content.clone();
        call.record_content(hooks[i](input));
    }
    call.finish_content()
}

#[test]
fn composite_calls_all_hooks() {
    let h1 = Cell::new(0);
    let h2 = Cell::new(0);
    let composite = CompositeHook::new(2);
    let f1 = || {
        h1.set(h1.get() + 1);
        Ok(())
    };
    let f2 = || {
        h2.set(h2.get() + 1);
        Ok(())
    };
    // before_iteration, before_execute_tools, after_iteration
    for _ in 0..3 {
        assert!(run_composite(&composite, &[&f1, &f2]).0.is_ok());
    }
    assert_eq!(h1.get(), 3);
    assert_eq!(h2.get(), 3);
}

#[test]
fn composite_isolates_errors() {
    let counter = Cell::new(0);
    let composite = CompositeHook::new(2);
    let failing = || Err("intentional failure".to_string());
    let counting = || {
        counter.set(counter.get() + 1);
        Ok(())
    };
    let (outcome, failures) = run_composite(&composite, &[&failing, &counting]);
    assert!(outcome.is_ok());
    assert_eq!(failures, vec!["intentional failure".to_string()]);
    assert_eq!(counter.get(), 1);
}

#[test]
fn composite_finalize_content_pipeline() {
    let composite = CompositeHook::new(2);
    let a = |c: Option<String>| c.map(|c| format!("{c}_A"));
    let b = |c: Option<String>| c.map(|c| format!("{c}_B"));
    assert_eq!(finalize(&composite, &[&a, &b], Some("start".into())), Some("start_A_B".into()));
}

#[test]
fn composite_finalize_content_none_passthrough() {
    let composite = CompositeHook::new(1);
    let a = |c: Option<String>| c.map(|c| format!("{c}_A"));
    assert_eq!(finalize(&composite, &[&a], None), None);
}
