use nanobot::channels::dingtalk::{
    dingtalk_inbound, reply_markdown, ChatbotFields, DingTalkConfig,
};
use nanobot::channels::error::ChannelError;
use nanobot::channels::manager::{ChannelManager, ChannelState};
use nanobot::channels::media::{
    download_mime, extract_extension, first_media_action, guess_filename, guess_mime_type, guess_upload_type,
    is_http_url, local_media_path, next_media_action, sample_file_type, MediaAction,
};
use nanobot::channels::messages::OutboundMessage;

fn config(allow_from: Vec<&str>) -> DingTalkConfig {
    DingTalkConfig {
        enabled: false,
        client_id: "test_client_id".to_string(),
        client_secret: "test_client_secret".to_string(),
        allow_from: allow_from.into_iter().map(|s| s.to_string()).collect(),
    }
}

#[test]
fn dingtalk_config_validation() {
    let mut config = DingTalkConfig::default();
    config.enabled = true;
    assert!(config.validate().is_err());

    config.client_id = "test_client_id".to_string();
    assert!(config.validate().is_err());

    config.client_secret = "test_client_secret".to_string();
    assert!(config.validate().is_ok());
}

#[test]
fn dingtalk_creation() {
    assert!(config(vec![]).validate().is_ok());
}

#[test]
fn dingtalk_config_error_kind() {
    let mut c = DingTalkConfig::default();
    c.enabled = true;
    assert!(matches!(c.validate(), Err(ChannelError::Config(_))));
    let disabled = DingTalkConfig::default();
    assert!(disabled.validate().is_ok());
}

#[test]
fn permission_check() {
    let c = config(vec!["user1", "user2"]);
    assert!(c.check_permission("user1"));
    assert!(c.check_permission("user2"));
    assert!(!c.check_permission("user3"));
    assert!(!c.check_permission("user1|extra"));
}

#[test]
fn permission_check_empty_denies() {
    let c = config(vec![]);
    assert!(!c.check_permission("user1"));
    assert!(!c.check_permission("any_user"));
}

#[test]
fn permission_check_wildcard_allows_all() {
    let c = config(vec!["*"]);
    assert!(c.check_permission("user1"));
    assert!(c.check_permission("any_user"));
}

fn robot_message(text: Option<&str>, staff: Option<&str>, sender: Option<&str>, conv: Option<&str>) -> ChatbotFields {
    ChatbotFields {
        text: text.map(|s| s.to_string()),
        sender_staff_id: staff.map(|s| s.to_string()),
        sender_id: sender.map(|s| s.to_string()),
        sender_nick: Some("nick".to_string()),
        conversation_id: conv.map(|s| s.to_string()),
    }
}

#[test]
fn inbound_robot_messages() {
    let c = config(vec!["staff1"]);
    let m = dingtalk_inbound(&c, &robot_message(Some(" hello "), Some("staff1"), Some("s"), Some("conv"))).unwrap();
    assert_eq!(m.channel, "dingtalk");
    assert_eq!(m.sender_id, "staff1");
    assert_eq!(m.chat_id, "conv");
    assert_eq!(m.content, " hello ");
    let m2 = dingtalk_inbound(&config(vec!["*"]), &robot_message(Some("x"), None, Some("s2"), None)).unwrap();
    assert_eq!(m2.sender_id, "s2");
    assert_eq!(m2.chat_id, "s2");
    assert!(dingtalk_inbound(&c, &robot_message(Some("   "), Some("staff1"), None, None)).is_none());
    assert!(dingtalk_inbound(&c, &robot_message(Some("hi"), Some("other"), None, None)).is_none());
    assert!(dingtalk_inbound(&c, &robot_message(None, Some("staff1"), None, None)).is_none());
}

#[test]
fn reply_markdown_body() {
    assert_eq!(reply_markdown("done"), "**Nanobot Reply**\n\ndone");
}

#[test]
fn media_kinds_and_names() {
    assert!(is_http_url("https://a.b/c.png"));
    assert!(!is_http_url("/tmp/c.png"));
    assert_eq!(extract_extension("https://a.b/c.PNG?x=1"), ".png");
    assert_eq!(extract_extension("/tmp/file"), "");
    assert_eq!(guess_upload_type("https://a.b/c.jpg"), "image");
    assert_eq!(guess_upload_type("/tmp/a.mp3"), "voice");
    assert_eq!(guess_upload_type("/tmp/a.mp4"), "video");
    assert_eq!(guess_upload_type("/tmp/a.pdf"), "file");
    assert_eq!(guess_mime_type("a.png"), "image/png");
    assert_eq!(guess_mime_type("a.unknown"), "application/octet-stream");
    assert_eq!(sample_file_type("photo.jpeg"), "jpg");
    assert_eq!(sample_file_type("doc.pdf"), "pdf");
    assert_eq!(guess_filename("https://a.b/dir/pic.png?sig=1", "image"), "pic.png");
}

#[test]
fn media_send_plan() {
    assert!(matches!(first_media_action("   "), MediaAction::Done));
    assert!(matches!(first_media_action("https://a.b/c.png"), MediaAction::SendPhotoUrl));
    assert!(matches!(first_media_action("/tmp/c.png"), MediaAction::ReadAndUpload));
    assert!(matches!(next_media_action("image", MediaAction::SendPhotoUrl, false), Some(MediaAction::ReadAndUpload)));
    assert!(matches!(next_media_action("image", MediaAction::ReadAndUpload, true), Some(MediaAction::SendImageById)));
    assert!(matches!(next_media_action("file", MediaAction::ReadAndUpload, true), Some(MediaAction::SendFile)));
    assert!(next_media_action("file", MediaAction::ReadAndUpload, false).is_none());
    assert!(matches!(next_media_action("image", MediaAction::SendImageById, false), Some(MediaAction::SendFile)));
    assert!(matches!(next_media_action("image", MediaAction::SendFile, true), Some(MediaAction::Done)));
    assert_eq!(local_media_path("file:///tmp/a.png"), "/tmp/a.png");
    assert_eq!(local_media_path("/tmp/a.png"), "/tmp/a.png");
    assert_eq!(download_mime(Some("image/png; charset=x"), "a.bin"), "image/png");
    assert_eq!(download_mime(None, "a.png"), "image/png");
}

struct FakeChannel {
    running: bool,
    label: &'static str,
}

impl ChannelState for FakeChannel {
    fn is_running(&self) -> bool {
        self.running
    }
}

#[test]
fn channel_manager_creation() {
    let manager: ChannelManager<FakeChannel> = ChannelManager::new();
    assert_eq!(manager.get_status().len(), 0);
}

#[test]
fn channel_manager_routes_and_reports() {
    let mut manager = ChannelManager::new();
    manager.add_channel("dingtalk", FakeChannel { running: true, label: "first" });
    manager.add_channel("feishu", FakeChannel { running: false, label: "second" });
    manager.add_channel("dingtalk", FakeChannel { running: false, label: "replaced" });
    assert_eq!(manager.len(), 2);
    let msg = OutboundMessage::new("dingtalk", "c", "hi");
    assert_eq!(manager.route_message(&msg).ok().map(|c| c.label), Some("replaced"));
    let missing = OutboundMessage::new("email", "c", "hi");
    match manager.route_message(&missing) {
        Err(ChannelError::SendFailed(m)) => assert_eq!(m, "通道 email 不存在"),
        _ => panic!("expected SendFailed"),
    }
    let status = manager.get_status();
    assert_eq!(status.len(), 2);
    assert_eq!(status[0].name, "dingtalk");
    assert!(!status[0].running);
    assert_eq!(status[1].name, "feishu");
    assert!(manager.get_channel_status("feishu").is_some());
    assert!(manager.get_channel_status("email").is_none());
    manager.clear();
    assert_eq!(manager.len(), 0);
}
