use nanobot::channels::error::ChannelError;
use nanobot::channels::feishu::interactive::{
    extract_interactive_content, CardElement, Column, ElementRow, Field, Header, InteractiveContent, MultiUrl,
    RichText, TextValue, TitleValue,
};
use nanobot::channels::feishu::post::{
    extract_from_locale, extract_post_content, resolve_locale, LocaleContent, PostContent, PostElement,
};
use nanobot::channels::feishu::{
    feishu_check_permission, feishu_inbound_with_text, feishu_reply_target, feishu_send_outcome, reply_card_content,
    credentials_error, Feishu, FeishuConfig, FeishuMessageFields, StoredEvent, TracingLogger,
};

fn new_channel(c: FeishuConfig) -> Result<Feishu, ChannelError> {
    let sdk = feishu_sdk::core::Config::builder(&c.app_id, &c.app_secret).build();
    let client = feishu_sdk::client::Client::new(sdk).map_err(|e| e.to_string());
    Feishu::new(c, client)
}

fn s(x: &str) -> String {
    x.to_string()
}

fn card() -> InteractiveContent {
    InteractiveContent { title: None, elements: None, card: None, header: None }
}

fn rich(content: Option<&str>, text: Option<&str>) -> RichText {
    RichText { content: content.map(s), text: text.map(s) }
}

fn rows(rows: Vec<Vec<CardElement>>) -> Option<Vec<ElementRow>> {
    Some(rows.into_iter().map(ElementRow::Array).collect())
}

fn markdown(c: &str) -> CardElement {
    CardElement::Markdown { content: Some(s(c)) }
}

// ---- interactive cards ----

#[test]
fn title_string() {
    let c = InteractiveContent { title: Some(TitleValue::Text(s("Hello World"))), ..card() };
    assert_eq!(extract_interactive_content(&c), "title: Hello World");
}

#[test]
fn title_dict_with_content() {
    let c = InteractiveContent { title: Some(TitleValue::Rich(rich(Some("Card Title"), None))), ..card() };
    assert_eq!(extract_interactive_content(&c), "title: Card Title");
}

#[test]
fn title_dict_with_text() {
    let c = InteractiveContent { title: Some(TitleValue::Rich(rich(None, Some("Card Title")))), ..card() };
    assert_eq!(extract_interactive_content(&c), "title: Card Title");
}

#[test]
fn elements_double_nested_markdown() {
    let c = InteractiveContent {
        elements: rows(vec![
            vec![markdown("**bold text**"), CardElement::PlainText { content: Some(s("plain")) }],
            vec![markdown("second row")],
        ]),
        ..card()
    };
    let result = extract_interactive_content(&c);
    assert!(result.contains("**bold text**"));
    assert!(result.contains("plain"));
    assert!(result.contains("second row"));
}

#[test]
fn elements_flat_array_compat() {
    let c = InteractiveContent {
        elements: Some(vec![ElementRow::Single(Box::new(markdown("flat element")))]),
        ..card()
    };
    let result = extract_interactive_content(&c);
    assert!(result.contains("flat element"));
}

#[test]
fn header_title() {
    let c = InteractiveContent { header: Some(Header { title: Some(rich(Some("Header Title"), None)) }), ..card() };
    assert_eq!(extract_interactive_content(&c), "title: Header Title");
}

#[test]
fn card_recursive() {
    let inner = InteractiveContent {
        header: Some(Header { title: Some(rich(None, Some("Inner Card Title"))) }),
        elements: rows(vec![vec![markdown("inner content")]]),
        ..card()
    };
    let c = InteractiveContent { card: Some(Box::new(inner)), ..card() };
    let result = extract_interactive_content(&c);
    assert!(result.contains("inner content"));
    assert!(result.contains("title: Inner Card Title"));
}

#[test]
fn div_with_text_dict() {
    let c = InteractiveContent {
        elements: rows(vec![vec![CardElement::Div {
            text: Some(TextValue::Rich(rich(Some("div text"), None))),
            fields: None,
        }]]),
        ..card()
    };
    assert!(extract_interactive_content(&c).contains("div text"));
}

#[test]
fn div_with_text_string() {
    let c = InteractiveContent {
        elements: rows(vec![vec![CardElement::Div { text: Some(TextValue::Plain(s("plain div"))), fields: None }]]),
        ..card()
    };
    assert!(extract_interactive_content(&c).contains("plain div"));
}

#[test]
fn div_with_fields() {
    let c = InteractiveContent {
        elements: rows(vec![vec![CardElement::Div {
            text: None,
            fields: Some(vec![
                Field { text: Some(rich(Some("field1"), None)) },
                Field { text: Some(rich(Some("field2"), None)) },
            ]),
        }]]),
        ..card()
    };
    let result = extract_interactive_content(&c);
    assert!(result.contains("field1"));
    assert!(result.contains("field2"));
}

#[test]
fn button_with_text_and_url() {
    let c = InteractiveContent {
        elements: rows(vec![vec![CardElement::Button {
            text: Some(rich(Some("Click me"), None)),
            url: Some(s("https://example.com")),
            multi_url: None,
        }]]),
        ..card()
    };
    let result = extract_interactive_content(&c);
    assert!(result.contains("Click me"));
    assert!(result.contains("link: https://example.com"));
}

#[test]
fn button_with_multi_url() {
    let c = InteractiveContent {
        elements: rows(vec![vec![CardElement::Button {
            text: Some(rich(Some("Open"), None)),
            url: None,
            multi_url: Some(MultiUrl { url: Some(s("https://example.com/multi")) }),
        }]]),
        ..card()
    };
    let result = extract_interactive_content(&c);
    assert!(result.contains("link: https://example.com/multi"));
}

#[test]
fn link_element() {
    let c = InteractiveContent {
        elements: rows(vec![vec![CardElement::A { href: Some(s("https://example.com")), text: Some(s("Example")) }]]),
        ..card()
    };
    let result = extract_interactive_content(&c);
    assert!(result.contains("link: https://example.com"));
    assert!(result.contains("Example"));
}

#[test]
fn img_with_alt() {
    let c = InteractiveContent {
        elements: rows(vec![vec![CardElement::Img { alt: Some(rich(Some("photo"), None)) }]]),
        ..card()
    };
    assert!(extract_interactive_content(&c).contains("photo"));
}

#[test]
fn img_without_alt() {
    let c = InteractiveContent { elements: rows(vec![vec![CardElement::Img { alt: None }]]), ..card() };
    assert!(extract_interactive_content(&c).contains("[image]"));
}

#[test]
fn note_recursive() {
    let c = InteractiveContent {
        elements: rows(vec![vec![CardElement::Note {
            elements: Some(vec![CardElement::PlainText { content: Some(s("note text")) }]),
        }]]),
        ..card()
    };
    assert!(extract_interactive_content(&c).contains("note text"));
}

#[test]
fn column_set_recursive() {
    let c = InteractiveContent {
        elements: rows(vec![vec![CardElement::ColumnSet {
            columns: Some(vec![
                Column { elements: Some(vec![markdown("col1")]) },
                Column { elements: Some(vec![markdown("col2")]) },
            ]),
        }]]),
        ..card()
    };
    let result = extract_interactive_content(&c);
    assert!(result.contains("col1"));
    assert!(result.contains("col2"));
}

#[test]
fn empty_content() {
    assert_eq!(extract_interactive_content(&card()), "");
}

#[test]
fn empty_elements() {
    let c = InteractiveContent { elements: Some(Vec::new()), ..card() };
    assert_eq!(extract_interactive_content(&c), "");
}

#[test]
fn card_parts_order_and_separator() {
    let inner = InteractiveContent { title: Some(TitleValue::Text(s("inner"))), ..card() };
    let c = InteractiveContent {
        title: Some(TitleValue::Text(s("outer"))),
        elements: rows(vec![vec![
            CardElement::Unknown,
            CardElement::LarkMd { content: Some(s("a")) },
            CardElement::Markdown { content: Some(String::new()) },
        ]]),
        card: Some(Box::new(inner)),
        header: Some(Header { title: Some(rich(Some(""), Some("head"))) }),
    };
    assert_eq!(extract_interactive_content(&c), "title: outer\na\ntitle: inner\ntitle: head");
}

#[test]
fn rich_text_prefers_nonempty_content() {
    assert_eq!(rich(Some("c"), Some("t")).effective_text(), Some("c"));
    assert_eq!(rich(Some(""), Some("t")).effective_text(), Some("t"));
    assert_eq!(rich(Some(""), Some("")).effective_text(), None);
    assert_eq!(rich(None, None).effective_text(), None);
}

// ---- post messages ----

fn text_el(t: &str) -> PostElement {
    PostElement::Text { text: Some(s(t)) }
}

fn img_el(k: &str) -> PostElement {
    PostElement::Img { image_key: Some(s(k)) }
}

fn post() -> PostContent {
    PostContent { post: None, zh_cn: None, en_us: None, ja_jp: None, title: None, content: None }
}

fn locale(title: Option<&str>, content: Vec<Vec<PostElement>>) -> LocaleContent {
    LocaleContent { title: title.map(s), content }
}

#[test]
fn format1_post_wrapper() {
    let value = PostContent {
        post: Some(vec![(s("zh_cn"), locale(Some("日报"), vec![vec![text_el("完成"), img_el("img_1")]]))]),
        ..post()
    };
    let (text, image_keys) = extract_post_content(&value);
    assert_eq!(text, "日报 完成");
    assert_eq!(image_keys, vec!["img_1"]);
}

#[test]
fn format2_direct_locale() {
    let value = PostContent {
        zh_cn: Some(locale(
            Some("周报"),
            vec![vec![
                text_el("本周进展"),
                PostElement::A { text: Some(s("详情")), href: Some(s("https://example.com")) },
            ]],
        )),
        ..post()
    };
    let (text, image_keys) = extract_post_content(&value);
    assert_eq!(text, "周报 本周进展 详情");
    assert!(image_keys.is_empty());
}

#[test]
fn format3_direct_content() {
    let value = PostContent {
        title: Some(s("Daily")),
        content: Some(vec![vec![text_el("report"), img_el("img_a"), img_el("img_b")]]),
        ..post()
    };
    let (text, image_keys) = extract_post_content(&value);
    assert_eq!(text, "Daily report");
    assert_eq!(image_keys, vec!["img_a", "img_b"]);
}

#[test]
fn tests_empty_content() {
    let (text, image_keys) = extract_post_content(&post());
    assert!(text.is_empty());
    assert!(image_keys.is_empty());
}

#[test]
fn no_title() {
    let value = PostContent { zh_cn: Some(locale(None, vec![vec![text_el("hello")]])), ..post() };
    let (text, image_keys) = extract_post_content(&value);
    assert_eq!(text, "hello");
    assert!(image_keys.is_empty());
}

#[test]
fn at_mention() {
    let value = PostContent {
        content: Some(vec![vec![text_el("请"), PostElement::At { user_id: Some(s("ou_123")) }, text_el("查看")]]),
        ..post()
    };
    let (text, _) = extract_post_content(&value);
    assert_eq!(text, "请 @ou_123 查看");
}

#[test]
fn multi_row() {
    let value = PostContent {
        post: Some(vec![(s("zh_cn"), locale(None, vec![vec![text_el("第一行")], vec![text_el("第二行")]]))]),
        ..post()
    };
    let (text, _) = extract_post_content(&value);
    assert_eq!(text, "第一行 第二行");
}

#[test]
fn unknown_tag_ignored() {
    let value = PostContent {
        content: Some(vec![vec![text_el("before"), PostElement::Unknown, text_el("after")]]),
        ..post()
    };
    let (text, _) = extract_post_content(&value);
    assert_eq!(text, "before after");
}

#[test]
fn locale_fallback_to_en_us() {
    let value = PostContent {
        post: Some(vec![(s("en_us"), locale(Some("Report"), vec![vec![text_el("done")]]))]),
        ..post()
    };
    let (text, _) = extract_post_content(&value);
    assert_eq!(text, "Report done");
}

#[test]
fn post_map_prefers_known_locales_then_any_with_rows() {
    let value = PostContent {
        post: Some(vec![
            (s("fr_fr"), locale(Some("fr"), vec![vec![text_el("x")]])),
            (s("zh_cn"), locale(Some("empty"), Vec::new())),
            (s("ja_jp"), locale(Some("ja"), vec![vec![text_el("y")]])),
        ]),
        zh_cn: Some(locale(Some("direct"), vec![vec![text_el("z")]])),
        ..post()
    };
    let chosen = resolve_locale(&value).unwrap();
    assert_eq!(chosen.title.as_deref(), Some("ja"));
    let value2 = PostContent { post: Some(vec![(s("fr_fr"), locale(None, vec![vec![text_el("x")]]))]), ..post() };
    assert_eq!(extract_post_content(&value2).0, "x");
    let value3 = PostContent { post: Some(vec![(s("zh_cn"), locale(None, Vec::new()))]), ..post() };
    assert!(resolve_locale(&value3).is_none());
}

#[test]
fn mention_without_user_and_empty_texts() {
    let lc = locale(
        Some(""),
        vec![vec![PostElement::At { user_id: None }, text_el(""), PostElement::Img { image_key: Some(String::new()) }]],
    );
    let (text, keys) = extract_from_locale(&lc);
    assert_eq!(text, "@user");
    assert!(keys.is_empty());
}

// ---- the channel ----

fn config(app_id: &str, app_secret: &str, allow_from: Vec<String>) -> FeishuConfig {
    FeishuConfig { enabled: false, app_id: s(app_id), app_secret: s(app_secret), allow_from }
}

#[test]
fn feishu_channel_creation() {
    let channel = new_channel(config("test_app_id", "test_app_secret", Vec::new()));
    assert!(channel.is_ok());
}

#[test]
fn feishu_channel_validation_empty_app_id() {
    let mut c = config("", "test_app_secret", Vec::new());
    c.enabled = true;
    let channel = new_channel(c);
    assert!(channel.is_err());
}

#[test]
fn feishu_channel_validation_empty_app_secret() {
    let mut c = config("test_app_id", "", Vec::new());
    c.enabled = true;
    let channel = new_channel(c);
    assert!(channel.is_err());
}

#[test]
fn feishu_creation_errors_name_the_missing_value() {
    match new_channel(config("", "x", Vec::new())) {
        Err(ChannelError::StartFailed(m)) => assert_eq!(m, "创建飞书客户端失败: missing config value: app_id"),
        _ => panic!("expected StartFailed"),
    }
    match new_channel(config("x", "", Vec::new())) {
        Err(ChannelError::StartFailed(m)) => assert_eq!(m, "创建飞书客户端失败: missing config value: app_secret"),
        _ => panic!("expected StartFailed"),
    }
}

#[test]
fn feishu_credentials_checked_before_the_client() {
    assert_eq!(credentials_error(&config("", "", Vec::new())), Some(s("missing config value: app_id")));
    assert_eq!(credentials_error(&config("id", "", Vec::new())), Some(s("missing config value: app_secret")));
    assert_eq!(credentials_error(&config("id", "secret", Vec::new())), None);
    match Feishu::new(config("", "x", Vec::new()), Err(s("other"))) {
        Err(ChannelError::StartFailed(m)) => assert_eq!(m, "创建飞书客户端失败: missing config value: app_id"),
        _ => panic!("expected StartFailed"),
    }
    match Feishu::new(config("id", "secret", Vec::new()), Err(s("no client"))) {
        Err(ChannelError::StartFailed(m)) => assert_eq!(m, "创建飞书客户端失败: no client"),
        _ => panic!("expected StartFailed"),
    }
}

#[test]
fn permission_check_with_whitelist() {
    let channel = new_channel(config("test_app_id", "test_app_secret", vec![s("user1"), s("user2")])).unwrap();
    assert!(channel.check_permission("user1"));
    assert!(channel.check_permission("user2"));
    assert!(!channel.check_permission("user3"));
    assert!(channel.check_permission("user1|extra"));
    assert!(!channel.check_permission("user3|extra"));
}

#[test]
fn permission_check_empty_whitelist() {
    let channel = new_channel(config("test_app_id", "test_app_secret", Vec::new())).unwrap();
    assert!(channel.check_permission("user1"));
    assert!(channel.check_permission("user2"));
    assert!(channel.check_permission("any_user"));
}

#[test]
fn permission_wildcard_and_later_pieces() {
    assert!(feishu_check_permission(&[s("*")], "anyone"));
    assert!(feishu_check_permission(&[s("b")], "a|b"));
    assert!(feishu_check_permission(&[s("")], "a||b"));
    assert!(!feishu_check_permission(&[s("a|")], "a|b"));
}

#[test]
fn channel_name() {
    let channel = new_channel(config("test_app_id", "test_app_secret", Vec::new())).unwrap();
    assert_eq!(channel.name(), "feishu");
}

fn fields(chat: Option<&str>, sender: Option<&str>, kind: Option<&str>, content: Option<&str>) -> FeishuMessageFields {
    FeishuMessageFields {
        chat_id: chat.map(s),
        sender_open_id: sender.map(s),
        sender_type: Some(s("user")),
        message_type: kind.map(s),
        content: content.map(s),
    }
}

#[test]
fn inbound_text_message() {
    let m = fields(Some("oc_1"), Some("ou_1"), Some("text"), Some("{\"text\":\"  hi there \"}"));
    let channel = new_channel(config("id", "secret", Vec::new())).unwrap();
    let msg = channel.inbound(&m).unwrap();
    assert_eq!(msg.channel, "feishu");
    assert_eq!(msg.sender_id, "ou_1");
    assert_eq!(msg.chat_id, "oc_1");
    assert_eq!(msg.content, "hi there");
}

#[test]
fn inbound_rejections() {
    let allow = vec![s("ou_1")];
    let ok = fields(Some("c"), Some("ou_1"), Some("text"), Some("{}"));
    assert!(feishu_inbound_with_text(&allow, &ok, Some("x")).is_some());
    assert!(feishu_inbound_with_text(&allow, &ok, Some("   ")).is_none());
    assert!(feishu_inbound_with_text(&allow, &ok, None).is_none());
    let image = fields(Some("c"), Some("ou_1"), Some("image"), Some("{}"));
    assert!(feishu_inbound_with_text(&allow, &image, Some("x")).is_none());
    let no_chat = fields(None, Some("ou_1"), Some("text"), Some("{}"));
    assert!(feishu_inbound_with_text(&allow, &no_chat, Some("x")).is_none());
    let stranger = fields(Some("c"), Some("ou_2"), Some("text"), Some("{}"));
    assert!(feishu_inbound_with_text(&allow, &stranger, Some("x")).is_none());
    let channel = new_channel(config("id", "secret", Vec::new())).unwrap();
    let not_json = fields(Some("c"), Some("ou_1"), Some("text"), Some("hello"));
    assert!(channel.inbound(&not_json).is_none());
}

#[test]
fn reply_card_json() {
    assert_eq!(
        reply_card_content("a\"b"),
        "{\"config\":{\"wide_screen_mode\":true},\"elements\":[{\"tag\":\"div\",\"text\":{\"content\":\"**Nanobot Reply**\\n\\na\\\"b\",\"tag\":\"lark_md\"}}]}"
    );
}

#[test]
fn reply_card_json_escapes_controls() {
    assert_eq!(
        reply_card_content("\\t\u{1}é\t"),
        "{\"config\":{\"wide_screen_mode\":true},\"elements\":[{\"tag\":\"div\",\"text\":{\"content\":\"**Nanobot Reply**\\n\\n\\\\t\\u0001é\\t\",\"tag\":\"lark_md\"}}]}"
    );
}

#[test]
fn reply_target_and_outcome() {
    match feishu_reply_target("c1", StoredEvent::Missing) {
        Err(ChannelError::SendFailed(m)) => assert_eq!(m, "找不到消息上下文: c1"),
        _ => panic!(),
    }
    match feishu_reply_target("c1", StoredEvent::NoData) {
        Err(ChannelError::SendFailed(m)) => assert_eq!(m, "原始事件数据为空"),
        _ => panic!(),
    }
    match feishu_reply_target("c1", StoredEvent::Unparsable(s("bad"))) {
        Err(ChannelError::SendFailed(m)) => assert_eq!(m, "解析原始消息事件失败: bad"),
        _ => panic!(),
    }
    assert_eq!(feishu_reply_target("c1", StoredEvent::Message { chat_id: Some(s("oc_9")) }).ok(), Some(s("oc_9")));
    assert_eq!(feishu_reply_target("c1", StoredEvent::Message { chat_id: None }).ok(), Some(String::new()));
    assert!(feishu_send_outcome(None, 0, "ok").is_ok());
    match feishu_send_outcome(None, 99, "denied") {
        Err(ChannelError::SendFailed(m)) => assert_eq!(m, "发送飞书消息失败: denied"),
        _ => panic!(),
    }
    match feishu_send_outcome(Some("timeout"), 0, "") {
        Err(ChannelError::SendFailed(m)) => assert_eq!(m, "发送飞书消息失败: timeout"),
        _ => panic!(),
    }
}

#[test]
fn logger_line() {
    assert_eq!(TracingLogger.line("hello"), "[Feishu] hello");
}
