//! WeChat: login, polling, contexts and the plugin.
use std::time::Duration;

use base64::Engine;

use aionui_channel::error::ChannelError;
use aionui_channel::json::{write_json, JsonNode};
use aionui_channel::plugins::http::HttpRequest;
use aionui_channel::plugins::weixin::api::{
    check_status, direct_qrcode, direct_status, parse_failed, request_failed, send_failed, wrapped_qrcode,
    wrapped_status, WeixinApi,
};
use aionui_channel::plugins::weixin::contexts::Contexts;
use aionui_channel::plugins::weixin::login::{
    begin_login, check_deadline, client_failed, login_step, LoginStart, LoginStep, WeixinLoginEvent, LOGIN_BASE_URL,
    QR_LOGIN_TIMEOUT, QR_POLL_INTERVAL,
};
use aionui_channel::plugins::weixin::plugin::{
    backoff_delay, base_url_of, extract_content, handle_message, poll_log_action, PollLogAction, PollState, PollStep,
    WeixinPlugin,
};
use aionui_channel::plugins::weixin::types::{
    GetUpdatesResponse, ILinkResponse, MediaEncryptInfo, MediaItemData, QrCodeData, QrCodeStatusData, TextItem,
    VoiceItem, WeixinRawItem, WeixinRawMessage, ITEM_TYPE_FILE, ITEM_TYPE_IMAGE, ITEM_TYPE_TEXT, ITEM_TYPE_VOICE,
};
use aionui_channel::text_map::TextMap;
use aionui_channel::types::{text_message, MessageContentType, PluginCredentials, PluginStatus, PluginType};

fn body_of(r: &HttpRequest) -> serde_json::Value {
    serde_json::from_str(&write_json(r.body.as_ref().unwrap())).unwrap()
}

#[test]
fn api_normalizes_trailing_slash() {
    let api = WeixinApi::new("https://ilinkai.weixin.qq.com///", "tok").unwrap();
    assert!(api.base_url.ends_with("com"));
}

#[test]
fn api_generates_wechat_uin() {
    let api = WeixinApi::new("https://example.com", "tok").unwrap();
    // base64 of 4 bytes should be 8 chars (with padding)
    assert_eq!(api.wechat_uin().len(), 8);
    // Should be valid base64
    let decoded = base64::engine::general_purpose::STANDARD.decode(api.wechat_uin());
    assert!(decoded.is_ok());
    assert_eq!(decoded.unwrap().len(), 4);
}

#[test]
fn api_generates_different_uin_each_time() {
    let api1 = WeixinApi::new("https://example.com", "tok").unwrap();
    let api2 = WeixinApi::new("https://example.com", "tok").unwrap();
    // Extremely unlikely to collide (2^32 space)
    assert_ne!(api1.wechat_uin(), api2.wechat_uin());
}

fn the_uin_is_the_base64_of_its_bytes() {
    let api = WeixinApi::with_uin("https://example.com/", "tok", [1, 2, 3, 255]);
    assert_eq!(api.wechat_uin(), "AQID/w==");
    assert_eq!(api.base_url, "https://example.com");
    let drawn = WeixinApi::from_draw("https://example.com//", "tok", Ok([1, 2, 3, 255])).unwrap();
    assert_eq!(drawn.wechat_uin(), "AQID/w==");
    assert_eq!(drawn.base_url, "https://example.com");
    assert_eq!(drawn.bot_token(), "tok");
    assert_eq!(WeixinApi::from_draw("https://example.com", "tok", Err("no entropy".into())).unwrap_err(), "no entropy");
}

#[test]
fn login_event_names() {
    assert_eq!(WeixinLoginEvent::Qr("t".into()).event_name(), "qr");
    assert_eq!(WeixinLoginEvent::Scanned.event_name(), "scanned");
    assert_eq!(
        WeixinLoginEvent::Done {
            account_id: "a".into(),
            bot_token: "b".into(),
            base_url: "c".into(),
        }
        .event_name(),
        "done"
    );
    assert_eq!(WeixinLoginEvent::Error("err".into()).event_name(), "error");
}

#[test]
fn login_event_qr_json() {
    let evt = WeixinLoginEvent::Qr("ticket_123".into());
    let json = evt.to_json_data();
    assert!(json.contains("qrcodeData"));
    assert!(json.contains("ticket_123"));
}

#[test]
fn login_event_scanned_json() {
    let evt = WeixinLoginEvent::Scanned;
    assert_eq!(evt.to_json_data(), "{}");
}

#[test]
fn login_event_done_json() {
    let evt = WeixinLoginEvent::Done {
        account_id: "acc_1".into(),
        bot_token: "tok_1".into(),
        base_url: "https://ilinkai.weixin.qq.com".into(),
    };
    let json = evt.to_json_data();
    assert!(json.contains("accountId"));
    assert!(json.contains("acc_1"));
    assert!(json.contains("botToken"));
    assert!(json.contains("tok_1"));
    assert!(json.contains("baseUrl"));
}

#[test]
fn login_event_error_json() {
    let evt = WeixinLoginEvent::Error("timeout".into());
    let json = evt.to_json_data();
    assert!(json.contains(r#""message":"timeout"#));
}

#[test]
fn serialize_sse_qr_event() {
    let json = WeixinLoginEvent::Qr("ticket_abc".into()).to_json_data();
    assert!(json.contains(r#""qrcodeData":"ticket_abc"#));
}

#[test]
fn serialize_sse_done_event() {
    let evt = WeixinLoginEvent::Done {
        account_id: "acc_1".into(),
        bot_token: "tok_1".into(),
        base_url: "https://example.com".into(),
    };
    let json = evt.to_json_data();
    assert!(json.contains(r#""accountId":"acc_1"#));
    assert!(json.contains(r#""botToken":"tok_1"#));
    assert!(json.contains(r#""baseUrl":"https://example.com"#));
}

#[test]
fn serialize_sse_error_event() {
    let json = WeixinLoginEvent::Error("timeout".into()).to_json_data();
    assert!(json.contains(r#""message":"timeout"#));
}

#[test]
fn default_constants() {
    assert_eq!(Duration::from_secs(QR_POLL_INTERVAL), Duration::from_secs(2));
    assert_eq!(Duration::from_secs(QR_LOGIN_TIMEOUT), Duration::from_secs(300));
}

#[test]
fn backoff_delay_exponential_curve() {
    assert_eq!(Duration::from_secs(backoff_delay(1)), Duration::from_secs(2));
    assert_eq!(Duration::from_secs(backoff_delay(2)), Duration::from_secs(4));
    assert_eq!(Duration::from_secs(backoff_delay(3)), Duration::from_secs(8));
    assert_eq!(Duration::from_secs(backoff_delay(4)), Duration::from_secs(16));
    assert_eq!(Duration::from_secs(backoff_delay(5)), Duration::from_secs(32));
    assert_eq!(Duration::from_secs(backoff_delay(9)), Duration::from_secs(512));
}

#[test]
fn backoff_delay_caps_at_ten_minutes() {
    assert_eq!(Duration::from_secs(backoff_delay(10)), Duration::from_secs(600));
    assert_eq!(Duration::from_secs(backoff_delay(20)), Duration::from_secs(600));
    // Must not overflow on large counts.
    assert_eq!(Duration::from_secs(backoff_delay(u32::MAX)), Duration::from_secs(600));
}

#[test]
fn log_action_silent_when_healthy_success() {
    assert_eq!(poll_log_action(0, true), PollLogAction::Silent);
}

#[test]
fn log_action_started_failing_on_first_failure() {
    assert_eq!(poll_log_action(0, false), PollLogAction::StartedFailing);
}

#[test]
fn log_action_still_failing_on_repeat_failure() {
    assert_eq!(poll_log_action(1, false), PollLogAction::StillFailing);
    assert_eq!(poll_log_action(9, false), PollLogAction::StillFailing);
}

#[test]
fn log_action_recovered_after_failures() {
    assert_eq!(poll_log_action(1, true), PollLogAction::Recovered);
    assert_eq!(poll_log_action(5, true), PollLogAction::Recovered);
}

fn make_text_item(text: &str) -> WeixinRawItem {
    WeixinRawItem {
        item_type: Some(ITEM_TYPE_TEXT),
        text_item: Some(TextItem { text: Some(text.into()) }),
        ..Default::default()
    }
}

#[test]
fn extract_text_only() {
    let items = vec![make_text_item("Hello world")];
    let (ct, text, has_media) = extract_content(&items);
    assert_eq!(ct, MessageContentType::Text);
    assert_eq!(text, "Hello world");
    assert!(!has_media);
}

#[test]
fn extract_command() {
    let items = vec![make_text_item("/start")];
    let (ct, text, _) = extract_content(&items);
    assert_eq!(ct, MessageContentType::Command);
    assert_eq!(text, "/start");
}

#[test]
fn extract_voice_text() {
    let items = vec![WeixinRawItem {
        item_type: Some(ITEM_TYPE_VOICE),
        voice_item: Some(VoiceItem { text: Some("transcribed text".into()) }),
        ..Default::default()
    }];
    let (ct, text, _) = extract_content(&items);
    assert_eq!(ct, MessageContentType::Text);
    assert_eq!(text, "transcribed text");
}

#[test]
fn extract_mixed_text_and_voice() {
    let items = vec![
        make_text_item("Hello"),
        WeixinRawItem {
            item_type: Some(ITEM_TYPE_VOICE),
            voice_item: Some(VoiceItem { text: Some("voice part".into()) }),
            ..Default::default()
        },
    ];
    let (_, text, _) = extract_content(&items);
    assert_eq!(text, "Hello\n\nvoice part");
}

#[test]
fn extract_media_items_detected() {
    let items = vec![WeixinRawItem {
        item_type: Some(2),
        image_item: Some(MediaItemData {
            media: Some(MediaEncryptInfo { encrypt_query_param: Some("enc".into()), aes_key: Some("key".into()) }),
            ..Default::default()
        }),
        ..Default::default()
    }];
    let (_, text, has_media) = extract_content(&items);
    assert!(text.is_empty());
    assert!(has_media);
}

#[test]
fn extract_empty_items() {
    let items: Vec<WeixinRawItem> = vec![];
    let (_, text, has_media) = extract_content(&items);
    assert!(text.is_empty());
    assert!(!has_media);
}

#[test]
fn item_type_constants() {
    assert_eq!(ITEM_TYPE_TEXT, 1);
    assert_eq!(ITEM_TYPE_IMAGE, 2);
    assert_eq!(ITEM_TYPE_VOICE, 3);
    assert_eq!(ITEM_TYPE_FILE, 4);
}

#[test]
fn serialize_send_message_request() {
    let api = WeixinApi::with_uin("https://example.com", "tok", [0; 4]);
    let req = api.send_message_as("uuid-1234", "user_1", "Hello", Some("ctx_abc"));
    let json = write_json(&req.body.unwrap());
    assert!(json.contains(r#""to_user_id":"user_1"#));
    assert!(json.contains(r#""client_id":"uuid-1234"#));
    assert!(json.contains(r#""message_type":2"#));
    assert!(json.contains(r#""message_state":2"#));
    assert!(json.contains(r#""type":1"#));
    assert!(json.contains(r#""text":"Hello"#));
    assert!(json.contains(r#""context_token":"ctx_abc"#));
    assert!(json.contains(r#""base_info":{}"#));
}

#[test]
fn serialize_send_message_no_context_token() {
    let api = WeixinApi::with_uin("https://example.com", "tok", [0; 4]);
    let req = api.send_message_as("uuid-1234", "user_1", "Hi", None);
    let json = write_json(&req.body.unwrap());
    assert!(!json.contains("context_token"));
}

fn each_message_has_its_own_client_id() {
    let api = WeixinApi::with_uin("https://example.com", "tok", [0; 4]);
    let first = body_of(&api.send_message("u", "Hi", None).unwrap())["msg"]["client_id"].clone();
    let second = body_of(&api.send_message("u", "Hi", None).unwrap())["msg"]["client_id"].clone();
    assert_ne!(first, second);
    assert_eq!(first.as_str().unwrap().len(), 36);
    assert_eq!(first.as_str().unwrap().matches('-').count(), 4);
}

fn a_message_needs_a_drawn_id() {
    let api = WeixinApi::with_uin("https://example.com", "tok", [0; 4]);
    let sent = body_of(&api.send_message_drawn("u", "Hi", None, Ok([0xab; 16])).unwrap());
    assert_eq!(sent["msg"]["client_id"], "abababab-abab-4bab-abab-abababababab");
    assert_eq!(sent["msg"]["to_user_id"], "u");
    assert_eq!(
        api.send_message_drawn("u", "Hi", None, Err("no entropy".into())).err(),
        Some(ChannelError::MessageSendFailed("RNG failure: no entropy".into()))
    );
}

fn requests_carry_the_token() {
    let api = WeixinApi::with_uin("https://example.com", "tok", [0; 4]);
    let updates = api.get_updates("buf==");
    assert_eq!(body_of(&updates)["get_updates_buf"], "buf==");
    assert!(updates.headers.iter().any(|(k, v)| k == "Authorization" && v == "Bearer tok"));
    assert!(api.get_bot_qrcode().url.starts_with("https://example.com/"));
    let status = api.get_qrcode_status("ticket");
    assert!(status.query.iter().any(|(_, v)| v == "ticket") || status.url.contains("ticket"));
}

fn qrcode(ticket: Option<&str>) -> QrCodeData {
    QrCodeData { qrcode: ticket.map(|s| s.to_string()), qrcode_img_content: None }
}

fn replies_come_plain_or_wrapped() {
    assert!(direct_qrcode(Some(qrcode(Some("t")))).is_some());
    assert!(direct_qrcode(Some(qrcode(None))).is_none());
    assert!(direct_qrcode(None).is_none());
    let wrapped = ILinkResponse { code: Some(0), msg: None, data: Some(qrcode(Some("t"))) };
    assert_eq!(wrapped_qrcode(wrapped).unwrap().qrcode.as_deref(), Some("t"));
    assert!(wrapped_qrcode(ILinkResponse { code: Some(1), msg: Some("no".into()), data: None }).is_err());
    let status = QrCodeStatusData { status: Some("scaned".into()), ..Default::default() };
    assert!(direct_status(Some(status)).is_some());
    assert!(direct_status(Some(QrCodeStatusData::default())).is_none());
    let empty: ILinkResponse<QrCodeStatusData> = ILinkResponse { code: None, msg: None, data: None };
    assert!(wrapped_status(empty).is_err());
    assert!(check_status("ep", true, "200", "").is_ok());
    let refused = check_status("ep", false, "500", "oops").unwrap_err().message();
    assert!(refused.contains("ep") && refused.contains("500") && refused.contains("oops"));
    assert!(request_failed("ep", "dns").message().contains("dns"));
    assert!(parse_failed("ep", "eof").message().contains("eof"));
    let failed = send_failed(&ChannelError::PlatformApi("down".into()));
    assert!(matches!(&failed, ChannelError::MessageSendFailed(m) if m.contains("down")));
}

fn status(word: &str) -> Result<QrCodeStatusData, ChannelError> {
    Ok(QrCodeStatusData { status: Some(word.into()), ..Default::default() })
}

fn a_login_goes_its_way() {
    match begin_login(Ok(QrCodeData { qrcode: Some("t".into()), qrcode_img_content: Some("img".into()) })) {
        LoginStart::Show(WeixinLoginEvent::Qr(_), ticket) => assert_eq!(ticket, "t"),
        other => panic!("{:?}", other),
    }
    assert!(matches!(begin_login(Ok(qrcode(None))), LoginStart::Fail(_)));
    assert!(matches!(begin_login(Err(ChannelError::PlatformApi("x".into()))), LoginStart::Fail(_)));
    assert!(check_deadline(1000).is_none());
    assert!(matches!(check_deadline(300_000), Some(WeixinLoginEvent::Error(_))));

    let mut scanned = false;
    assert!(matches!(login_step(&mut scanned, status("wait")), LoginStep::Wait));
    assert!(matches!(login_step(&mut scanned, status("scaned")), LoginStep::Show(WeixinLoginEvent::Scanned)));
    assert!(scanned);
    assert!(matches!(login_step(&mut scanned, status("scaned")), LoginStep::Wait));
    let done = Ok(QrCodeStatusData {
        status: Some("confirmed".into()),
        bot_token: Some("tok".into()),
        ilink_bot_id: Some("acc".into()),
        baseurl: None,
    });
    match login_step(&mut scanned, done) {
        LoginStep::End(WeixinLoginEvent::Done { account_id, bot_token, base_url }) => {
            assert_eq!(account_id, "acc");
            assert_eq!(bot_token, "tok");
            assert_eq!(base_url, LOGIN_BASE_URL);
        },
        other => panic!("{:?}", other),
    }
    assert!(matches!(login_step(&mut scanned, status("expired")), LoginStep::End(WeixinLoginEvent::Error(_))));
    assert!(matches!(client_failed("tls"), WeixinLoginEvent::Error(m) if m.contains("tls")));
}

fn polling_remembers_its_place() {
    let mut poll = PollState::new();
    let reply = GetUpdatesResponse {
        ret: Some(0),
        msgs: Some(vec![WeixinRawMessage::default()]),
        get_updates_buf: Some("b1".into()),
        ..Default::default()
    };
    match poll.step(Ok(reply)) {
        PollStep::Dispatch(msgs, log) => {
            assert_eq!(msgs.len(), 1);
            assert_eq!(log, PollLogAction::Silent);
        },
        other => panic!("{:?}", other),
    }
    assert_eq!(poll.buf, "b1");
    match poll.step(Err(ChannelError::PlatformApi("down".into()))) {
        PollStep::Wait(secs, why, log) => {
            assert_eq!(secs, 2);
            assert!(why.contains("down"));
            assert_eq!(log, PollLogAction::StartedFailing);
        },
        other => panic!("{:?}", other),
    }
    assert_eq!(poll.buf, "b1");
    let refused = GetUpdatesResponse {
        ret: Some(1001),
        errcode: Some(401),
        errmsg: Some("invalid token".into()),
        ..Default::default()
    };
    match poll.step(Ok(refused)) {
        PollStep::Wait(secs, why, log) => {
            assert_eq!(secs, 4);
            assert_eq!(why, "getupdates API error ret=Some(1001) errcode=Some(401)");
            assert_eq!(log, PollLogAction::StillFailing);
        },
        other => panic!("{:?}", other),
    }
    assert_eq!(poll.consecutive_failures, 2);
    assert!(matches!(
        poll.step(Ok(GetUpdatesResponse::default())),
        PollStep::Dispatch(_, PollLogAction::Recovered)
    ));
    assert_eq!(poll.consecutive_failures, 0);
}

fn the_latest_context_holds() {
    let mut contexts = Contexts::new();
    assert!(contexts.get("u").is_none());
    contexts.insert("u", "c1");
    contexts.insert("u", "c2");
    contexts.insert("v", "c3");
    assert_eq!(contexts.get("u").as_deref(), Some("c2"));
    contexts.clear();
    assert!(contexts.get("v").is_none());
}

fn messages_bring_their_context() {
    let mut contexts = Contexts::new();
    let raw = WeixinRawMessage {
        from_user_id: Some("user_12345678".into()),
        context_token: Some("ctx".into()),
        msg_id: Some("m1".into()),
        item_list: Some(vec![make_text_item("hello")]),
    };
    let msg = handle_message(&mut contexts, &raw, 5).unwrap();
    assert_eq!(msg.platform, PluginType::Weixin);
    assert_eq!(msg.id, "m1");
    assert_eq!(msg.chat_id, "user_12345678");
    assert_eq!(msg.content.text, "hello");
    assert_eq!(contexts.get("user_12345678").as_deref(), Some("ctx"));
    let empty = WeixinRawMessage { from_user_id: Some("user_12345678".into()), ..Default::default() };
    assert!(handle_message(&mut contexts, &empty, 5).is_none());
}

fn make_config(bot_token: Option<&str>, account_id: Option<&str>) -> PluginCredentials {
    PluginCredentials {
        token: None,
        app_id: None,
        app_secret: None,
        encrypt_key: None,
        verification_token: None,
        client_id: None,
        client_secret: None,
        account_id: account_id.map(String::from),
        bot_token: bot_token.map(String::from),
        app_token: None,
        extra: TextMap::new(),
    }
}

#[test]
fn plugin_initialize_missing_bot_token_fails() {
    let mut plugin = WeixinPlugin::new();
    let result = plugin.initialize(&make_config(None, Some("acc_1")));
    assert!(result.is_err());
    assert_eq!(plugin.state.status(), PluginStatus::Error);
    assert_eq!(plugin.state.last_error(), Some("Missing WeChat bot_token"));
}

#[test]
fn initialize_missing_account_id_fails() {
    let mut plugin = WeixinPlugin::new();
    let result = plugin.initialize(&make_config(Some("tok_1"), None));
    assert!(result.is_err());
    assert_eq!(plugin.state.status(), PluginStatus::Error);
    assert_eq!(plugin.state.last_error(), Some("Missing WeChat account_id"));
}

#[test]
fn plugin_initialize_empty_bot_token_fails() {
    let mut plugin = WeixinPlugin::new();
    let result = plugin.initialize(&make_config(Some(""), Some("acc_1")));
    assert!(result.is_err());
    assert_eq!(plugin.state.status(), PluginStatus::Error);
}

fn the_plugin_answers_in_context() {
    let mut plugin = WeixinPlugin::new();
    let out = text_message("<b>hi</b>".to_string());
    assert!(plugin.send_message("u", &out).is_err());
    let mut config = make_config(Some("tok"), Some("acc"));
    config.extra.insert("baseUrl", "\"https://own.example\"".to_string());
    let access = plugin.initialize(&config).unwrap();
    assert_eq!(access.bot_token, "tok");
    assert_eq!(access.account_id, "acc");
    let api = WeixinApi::new(&access.base_url, &access.bot_token).unwrap();
    plugin.identified(api, &access.account_id);
    plugin.contexts.insert("u", "ctx");
    plugin.start();
    assert_eq!(plugin.state.status(), PluginStatus::Running);
    let sent = body_of(&plugin.send_message("u", &out).unwrap());
    assert_eq!(sent["msg"]["context_token"], "ctx");
    let drawn = body_of(&plugin.send_message_drawn("u", &out, Ok([0; 16])).unwrap());
    assert_eq!(drawn["msg"]["client_id"], "00000000-0000-4000-8000-000000000000");
    assert_eq!(
        plugin.send_message_drawn("u", &out, Err("no entropy".into())).err(),
        Some(ChannelError::MessageSendFailed("RNG failure: no entropy".into()))
    );
    assert_eq!(sent["msg"]["item_list"][0]["text_item"]["text"], "<b>hi</b>");
    plugin.stop();
    assert_eq!(plugin.state.status(), PluginStatus::Stopped);
    assert!(plugin.contexts.get("u").is_none());
    assert_eq!(base_url_of(None), "https://ilinkai.weixin.qq.com");
    assert_eq!(base_url_of(Some(JsonNode::Text("https://x".into()))), "https://x");
}

#[test]
fn weixin_is_asked_and_answers() {
    the_uin_is_the_base64_of_its_bytes();
    each_message_has_its_own_client_id();
    a_message_needs_a_drawn_id();
    requests_carry_the_token();
    replies_come_plain_or_wrapped();
}

#[test]
fn logins_and_polls_go_their_way() {
    a_login_goes_its_way();
    polling_remembers_its_place();
}

#[test]
fn contexts_are_kept() {
    the_latest_context_holds();
    messages_bring_their_context();
    the_plugin_answers_in_context();
}
