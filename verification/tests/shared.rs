//! What the plugins of several platforms have in common.
use std::time::Duration;

use aionui_channel::plugins::callback::{
    action_category_prefix, confirmation, format_callback, parse_callback, trigger_action,
};
use aionui_channel::plugins::dedup::DedupCache;
use aionui_channel::plugins::dingtalk::api::DingtalkApi;
use aionui_channel::plugins::dingtalk::plugin::{
    extract_message_content as dingtalk_content, DingtalkPlugin,
};
use aionui_channel::plugins::dingtalk::types::{
    format_dingtalk_callback, parse_dingtalk_callback, BotMessageCallback, TextPayload,
};
use aionui_channel::plugins::discord::plugin::DiscordPlugin;
use aionui_channel::plugins::http::{is_rate_limited, request, Method};
use aionui_channel::plugins::lark::api::LarkApi;
use aionui_channel::plugins::lark::plugin::{extract_message_content as lark_content, ContentFields, LarkPlugin};
use aionui_channel::plugins::lark::types::{format_lark_callback, parse_lark_callback};
use aionui_channel::plugins::lifecycle::PluginState;
use aionui_channel::plugins::reconnect::{
    after_connection, after_registration, after_stream, backoff_delay, capped_backoff, Attempts, Next, Outcome, Retry,
    StreamAttempts, MAX_RECONNECT_ATTEMPTS,
};
use aionui_channel::plugins::slack::plugin::SlackPlugin;
use aionui_channel::plugins::time::seconds_of;
use aionui_channel::plugins::token::{cached_token, token_lifetime, TokenCache};
use aionui_channel::plugins::weixin::api::WeixinApi;
use aionui_channel::plugins::weixin::plugin::WeixinPlugin;
use aionui_channel::json::number;
use aionui_channel::text::truncate_message;
use aionui_channel::types::{
    ActionCategory, ActionContext, BotInfo, MessageContentType, Params, PluginStatus, PluginType,
};
use aionui_channel::error::ChannelError;

const NOW_MS: u64 = 1_700_000_000_000;

fn token(age_secs: u64) -> TokenCache {
    TokenCache { token: "test".into(), acquired_at: NOW_MS - age_secs * 1000, expires_in: 7200 }
}

fn params(pairs: &[(&str, &str)]) -> Option<Params> {
    let mut p: Params = Params::new();
    for (k, v) in pairs {
        p.insert(k, v.to_string());
    }
    Some(p)
}

fn text_callback(msgtype: &str, content: Option<&str>) -> BotMessageCallback {
    BotMessageCallback {
        conversation_id: None,
        msg_id: None,
        msgtype: Some(msgtype.into()),
        text: content.map(|c| TextPayload { content: Some(c.into()) }),
        sender_id: None,
        sender_nick: None,
        sender_staff_id: None,
        session_webhook: None,
        session_webhook_expired_time: None,
        conversation_type: None,
        is_in_at_list: None,
        at_users: None,
        create_at: None,
        robot_code: None,
    }
}

#[test]
fn api_api_stores_credentials() {
    let dingtalk = DingtalkApi::new("key_123", "secret_456");
    assert_eq!(dingtalk.client_id, "key_123");
    assert_eq!(dingtalk.client_secret, "secret_456");

    let lark = LarkApi::new("cli_123", "secret_456");
    assert_eq!(lark.app_id, "cli_123");
    assert_eq!(lark.app_secret, "secret_456");

    let weixin = WeixinApi::new("https://ilinkai.weixin.qq.com/", "tok_abc").unwrap();
    assert_eq!(weixin.base_url, "https://ilinkai.weixin.qq.com");
    assert_eq!(weixin.bot_token(), "tok_abc");
}

#[test]
fn token_cache_not_expired() {
    assert!(!token(0).is_expired(NOW_MS));
}

#[test]
fn token_cache_expired() {
    assert!(token(7200).is_expired(NOW_MS));
}

#[test]
fn token_cache_near_expiry() {
    // Token acquired 6900s ago with 7200s TTL — within 5min margin
    assert!(token(6900).is_expired(NOW_MS));
}

#[test]
fn api_token_cache_not_expired() {
    let cache = token(0);
    assert!(!cache.is_expired(NOW_MS));
}

#[test]
fn api_token_cache_expired() {
    let cache = token(7200);
    assert!(cache.is_expired(NOW_MS));
}

#[test]
fn api_token_cache_near_expiry() {
    // Token acquired 6900s ago with 7200s TTL — within 5min margin
    let cache = token(6900);
    assert!(cache.is_expired(NOW_MS));
}

fn expiry_is_final() {
    let cache = token(0);
    assert!(!cache.is_expired(NOW_MS + 6_899_999));
    assert!(cache.is_expired(NOW_MS + 6_900_000));
    assert!(cache.is_expired(u64::MAX));
    assert_eq!(cached_token(&Some(token(0)), NOW_MS).as_deref(), Some("test"));
    assert_eq!(cached_token(&Some(token(6900)), NOW_MS), None);
    assert_eq!(cached_token(&None, NOW_MS), None);
    assert_eq!(token_lifetime(Some(100)), 100);
    assert_eq!(token_lifetime(None), 7200);
}

#[test]
fn plugin_truncate_within_limit() {
    assert_eq!(truncate_message("Hello", 100), "Hello");
}

#[test]
fn plugin_truncate_at_limit() {
    assert_eq!(truncate_message("abc", 3), "abc");
}

#[test]
fn plugin_truncate_exceeds_limit() {
    let result = truncate_message("Hello, world!", 10);
    assert_eq!(result, "Hello, ...");
}

#[test]
fn plugin_truncate_unicode() {
    let result = truncate_message("你好世界测试文本", 5);
    assert_eq!(result, "你好...");
}

#[test]
fn truncate_within_limit() {
    assert_eq!(truncate_message("Hello", 100), "Hello");
}

#[test]
fn truncate_at_limit() {
    assert_eq!(truncate_message("abc", 3), "abc");
}

#[test]
fn truncate_exceeds_limit() {
    let result = truncate_message("Hello, world!", 10);
    assert_eq!(result, "Hello, ...");
}

#[test]
fn truncate_unicode() {
    let result = truncate_message("你好世界测试文本", 5);
    assert_eq!(result, "你好...");
}

#[test]
fn backoff_exponential() {
    assert_eq!(Duration::from_secs(backoff_delay(1)), Duration::from_secs(2));
    assert_eq!(Duration::from_secs(backoff_delay(2)), Duration::from_secs(4));
    assert_eq!(Duration::from_secs(backoff_delay(3)), Duration::from_secs(8));
}

#[test]
fn backoff_capped() {
    assert_eq!(Duration::from_secs(backoff_delay(5)), Duration::from_secs(30));
    assert_eq!(Duration::from_secs(backoff_delay(10)), Duration::from_secs(30));
}

#[test]
fn plugin_test_truncate_within_limit() {
    assert_eq!(truncate_message("hello", 100), "hello");
}

#[test]
fn plugin_test_truncate_at_limit() {
    assert_eq!(truncate_message("abc", 3), "abc");
}

#[test]
fn plugin_test_truncate_exceeds_limit() {
    assert_eq!(truncate_message("Hello, world!", 10), "Hello, ...");
}

#[test]
fn plugin_test_truncate_unicode() {
    assert_eq!(truncate_message("你好世界测试文本", 5), "你好...");
}

#[test]
fn plugin_backoff_exponential() {
    assert_eq!(Duration::from_secs(backoff_delay(1)), Duration::from_secs(2));
    assert_eq!(Duration::from_secs(backoff_delay(2)), Duration::from_secs(4));
    assert_eq!(Duration::from_secs(backoff_delay(3)), Duration::from_secs(8));
}

#[test]
fn plugin_backoff_capped() {
    assert_eq!(Duration::from_secs(backoff_delay(5)), Duration::from_secs(30));
    assert_eq!(Duration::from_secs(backoff_delay(10)), Duration::from_secs(30));
}

#[test]
fn socket_test_backoff_exponential() {
    assert_eq!(Duration::from_secs(backoff_delay(1)), Duration::from_secs(2));
    assert_eq!(Duration::from_secs(backoff_delay(2)), Duration::from_secs(4));
    assert_eq!(Duration::from_secs(backoff_delay(3)), Duration::from_secs(8));
}

#[test]
fn socket_test_backoff_capped() {
    assert_eq!(Duration::from_secs(backoff_delay(5)), Duration::from_secs(30));
    assert_eq!(Duration::from_secs(backoff_delay(20)), Duration::from_secs(30));
}

#[test]
fn backoff_exponential_and_capped() {
    assert_eq!(Duration::from_secs(backoff_delay(1)), Duration::from_secs(2));
    assert_eq!(Duration::from_secs(backoff_delay(3)), Duration::from_secs(8));
    assert_eq!(Duration::from_secs(backoff_delay(20)), Duration::from_secs(30));
}

fn waits_grow_up_to_the_cap() {
    let mut last = 0;
    for attempt in 0..70 {
        let wait = backoff_delay(attempt);
        assert!(wait >= last);
        assert!(wait <= 30);
        last = wait;
    }
    assert_eq!(capped_backoff(u32::MAX, 77), 77);
    assert_eq!(capped_backoff(6, 100), 64);
}

fn reconnecting_gives_up_after_ten_failures() {
    let mut attempts = Attempts::new();
    let mut waits = Vec::new();
    loop {
        match attempts.failed() {
            Retry::Wait(secs) => waits.push(secs),
            Retry::GiveUp => break,
        }
    }
    assert_eq!(waits.len() as u32, MAX_RECONNECT_ATTEMPTS - 1);
    assert_eq!(waits[0], 2);
    let mut again = Attempts::new();
    assert_eq!(again.failed(), Retry::Wait(2));
    again.succeeded();
    assert_eq!(again.failed(), Retry::Wait(2));
    assert_eq!(again.failed(), Retry::Wait(4));
}

fn registered_connections_are_given_up_in_the_end() {
    let mut dead = StreamAttempts::new();
    for round in 1..=MAX_RECONNECT_ATTEMPTS {
        assert_eq!(after_registration(&mut dead, true), None);
        let next = after_stream(&mut dead, Outcome::Failed);
        if round < MAX_RECONNECT_ATTEMPTS {
            assert_eq!(next, Next::Wait(backoff_delay(round)));
        } else {
            assert_eq!(next, Next::Stop);
        }
    }
    let mut refused = StreamAttempts::new();
    for round in 1..MAX_RECONNECT_ATTEMPTS {
        assert_eq!(after_registration(&mut refused, false), Some(Next::Wait(backoff_delay(round))));
    }
    assert_eq!(after_registration(&mut refused, true), None);
    assert_eq!(after_stream(&mut refused, Outcome::Failed), Next::Wait(2));
    assert_eq!(after_registration(&mut refused, false), Some(Next::Wait(4)));
    assert_eq!(after_registration(&mut refused, true), None);
    assert_eq!(after_stream(&mut refused, Outcome::Failed), Next::Wait(4));
    refused.came_up();
    assert_eq!(after_stream(&mut refused, Outcome::Failed), Next::Wait(2));
    assert_eq!(after_stream(&mut refused, Outcome::Closed), Next::Stop);
    assert_eq!(after_stream(&mut refused, Outcome::Shutdown), Next::Stop);
    let mut unlucky = StreamAttempts::new();
    for _ in 1..MAX_RECONNECT_ATTEMPTS {
        after_registration(&mut unlucky, false);
    }
    assert_eq!(after_registration(&mut unlucky, false), Some(Next::Stop));
}

fn ends_of_connections_are_told_apart() {
    let mut attempts = Attempts::new();
    assert_eq!(after_connection(&mut attempts, Outcome::Shutdown, true), Next::Stop);
    assert_eq!(after_connection(&mut attempts, Outcome::Failed, true), Next::Wait(2));
    assert_eq!(after_connection(&mut attempts, Outcome::Closed, true), Next::Again);
    assert_eq!(after_connection(&mut attempts, Outcome::Failed, true), Next::Wait(2));
    assert_eq!(after_connection(&mut attempts, Outcome::Closed, false), Next::Stop);
}

#[test]
fn plugin_extract_text_content() {
    let cb = text_callback("text", Some("Hello"));
    let (ct, text) = dingtalk_content("text", &cb);
    assert_eq!(ct, MessageContentType::Text);
    assert_eq!(text, "Hello");
}

#[test]
fn plugin_extract_text_command() {
    let cb = text_callback("text", Some("/start"));
    let (ct, text) = dingtalk_content("text", &cb);
    assert_eq!(ct, MessageContentType::Command);
    assert_eq!(text, "/start");
}

#[test]
fn plugin_extract_unsupported_type() {
    let cb = text_callback("richText", None);
    let (ct, text) = dingtalk_content("richText", &cb);
    assert_eq!(ct, MessageContentType::Text);
    assert!(text.contains("Unsupported"));
}

#[test]
fn plugin_new_plugin_initial_state() {
    let plugin = DingtalkPlugin::new();
    assert_eq!(plugin.state.status(), PluginStatus::Created);
    assert!(plugin.state.bot_info().is_none());
    assert!(plugin.state.last_error().is_none());
    assert_eq!(plugin.state.plugin_type(), PluginType::Dingtalk);
    assert_eq!(plugin.state.active_user_count(), 0);

    let plugin = LarkPlugin::new();
    assert_eq!(plugin.state.status(), PluginStatus::Created);
    assert!(plugin.state.bot_info().is_none());
    assert!(plugin.state.last_error().is_none());
    assert_eq!(plugin.state.plugin_type(), PluginType::Lark);
    assert_eq!(plugin.state.active_user_count(), 0);

    let plugin = WeixinPlugin::new();
    assert_eq!(plugin.state.status(), PluginStatus::Created);
    assert!(plugin.state.bot_info().is_none());
    assert!(plugin.state.last_error().is_none());
    assert_eq!(plugin.state.plugin_type(), PluginType::Weixin);
    assert_eq!(plugin.state.active_user_count(), 0);
}

#[test]
fn plugin_test_new_plugin_is_created_state() {
    let plugin = SlackPlugin::new();
    assert_eq!(plugin.state.status(), PluginStatus::Created);
    assert!(plugin.state.bot_info().is_none());
    assert_eq!(plugin.state.plugin_type(), PluginType::Slack);
    assert_eq!(plugin.state.active_user_count(), 0);
    assert!(plugin.state.last_error().is_none());

    let plugin = DiscordPlugin::new();
    assert_eq!(plugin.state.status(), PluginStatus::Created);
    assert!(plugin.state.bot_info().is_none());
    assert_eq!(plugin.state.plugin_type(), PluginType::Discord);
    assert_eq!(plugin.state.active_user_count(), 0);
    assert!(plugin.state.last_error().is_none());
}

fn bot() -> BotInfo {
    BotInfo { id: "B1".into(), username: None, display_name: "Bot".into() }
}

fn a_plugin_starts_once_and_only_when_ready() {
    let mut state: PluginState<u8> = PluginState::new(PluginType::Slack);
    assert!(state.start().is_err());
    assert_eq!(state.status(), PluginStatus::Error);
    assert_eq!(state.last_error(), Some("Plugin not initialized"));
    assert!(state.require_api().is_err());
    state.begin();
    assert_eq!(state.status(), PluginStatus::Initializing);
    state.ready(bot(), 7);
    assert_eq!(state.status(), PluginStatus::Ready);
    assert_eq!(state.bot_info().map(|b| b.id.as_str()), Some("B1"));
    assert_eq!(state.require_api(), Ok(&7));
    assert!(state.start().is_ok());
    assert_eq!(state.status(), PluginStatus::Running);
    assert!(state.start().is_err());
    state.stop();
    assert_eq!(state.status(), PluginStatus::Stopped);
    assert!(state.require_api().is_err());
}

fn failures_are_kept() {
    let mut state: PluginState<u8> = PluginState::new(PluginType::Lark);
    state.begin();
    state.fail("no token".into());
    assert_eq!(state.status(), PluginStatus::Error);
    assert_eq!(state.last_error(), Some("no token"));
    let e = state.client_failed("tls");
    assert!(e.message().contains("tls"));
    state.rejected(&ChannelError::PlatformApi("denied".into()));
    assert!(state.last_error().unwrap().contains("denied"));
}

#[test]
fn types_format_callback_no_params() {
    assert_eq!(format_dingtalk_callback("help.show", &None), "system:help.show");
    assert_eq!(format_dingtalk_callback("pairing.show", &None), "platform:pairing.show");
    assert_eq!(format_dingtalk_callback("chat.regenerate", &None), "chat:chat.regenerate");
    assert_eq!(format_dingtalk_callback("system.confirm", &None), "chat:system.confirm");
}

#[test]
fn types_format_callback_with_params() {
    let p = params(&[("callId", "abc"), ("value", "yes")]);
    let result = format_dingtalk_callback("system.confirm", &p);
    assert!(result.starts_with("chat:system.confirm:"));
    assert!(result.contains("callId=abc"));
    assert!(result.contains("value=yes"));
}

#[test]
fn types_parse_callback_roundtrip_no_params() {
    let encoded = format_dingtalk_callback("session.new", &None);
    let (cat, action, params) = parse_dingtalk_callback(&encoded).unwrap();
    assert_eq!(cat, "system");
    assert_eq!(action, "session.new");
    assert!(params.is_none());
}

#[test]
fn types_parse_callback_roundtrip_with_params() {
    let p = params(&[("agentType", "gemini")]);
    let encoded = format_dingtalk_callback("agent.select", &p);
    let (cat, action, params) = parse_dingtalk_callback(&encoded).unwrap();
    assert_eq!(cat, "system");
    assert_eq!(action, "agent.select");
    assert_eq!(params.unwrap().get("agentType").unwrap(), "gemini");
}

#[test]
fn types_parse_callback_invalid() {
    assert!(parse_dingtalk_callback("invalid").is_none());
    assert!(parse_dingtalk_callback("unknown:action").is_none());
}

fn lark_fields(content: &str) -> ContentFields {
    let v: serde_json::Value = serde_json::from_str(content).unwrap();
    ContentFields { text: v["text"].as_str().map(str::to_string), image_key: None, file: None, file_key: None }
}

#[test]
fn extract_text_content() {
    let (ct, text, att) = lark_content("text", lark_fields(r#"{"text":"Hello"}"#), None);
    assert_eq!(ct, MessageContentType::Text);
    assert_eq!(text, "Hello");
    assert!(att.is_none());
}

#[test]
fn extract_text_command() {
    let (ct, text, _) = lark_content("text", lark_fields(r#"{"text":"/start"}"#), None);
    assert_eq!(ct, MessageContentType::Command);
    assert_eq!(text, "/start");
}

#[test]
fn extract_unsupported_type() {
    let (ct, text, _) = lark_content("sticker", lark_fields("{}"), None);
    assert_eq!(ct, MessageContentType::Text);
    assert!(text.contains("Unsupported"));
}

#[test]
fn format_callback_no_params() {
    assert_eq!(format_lark_callback("help.show", &None), "system:help.show");
    assert_eq!(format_lark_callback("pairing.show", &None), "platform:pairing.show");
    assert_eq!(format_lark_callback("chat.regenerate", &None), "chat:chat.regenerate");
    assert_eq!(format_lark_callback("system.confirm", &None), "chat:system.confirm");
}

#[test]
fn parse_callback_roundtrip_no_params() {
    let encoded = format_lark_callback("session.new", &None);
    let (cat, action, params) = parse_lark_callback(&encoded).unwrap();
    assert_eq!(cat, "system");
    assert_eq!(action, "session.new");
    assert!(params.is_none());
}

#[test]
fn parse_callback_roundtrip_with_params() {
    let p = params(&[("agentType", "gemini")]);
    let encoded = format_lark_callback("agent.select", &p);
    let (cat, action, params) = parse_lark_callback(&encoded).unwrap();
    assert_eq!(cat, "system");
    assert_eq!(action, "agent.select");
    assert_eq!(params.unwrap().get("agentType").unwrap(), "gemini");
}

#[test]
fn parse_callback_invalid() {
    assert!(parse_lark_callback("invalid").is_none());
    assert!(parse_lark_callback("unknown:action").is_none());
}

#[test]
fn format_callback_with_params() {
    let p = params(&[("callId", "abc"), ("value", "yes")]);
    let result = format_lark_callback("system.confirm", &p);
    assert!(result.starts_with("chat:system.confirm:"));
    assert!(result.contains("callId=abc"));
    assert!(result.contains("value=yes"));
}

fn callbacks_name_their_category() {
    assert_eq!(action_category_prefix("pairing.show"), "platform");
    assert_eq!(action_category_prefix("chat.send"), "chat");
    assert_eq!(action_category_prefix("action.copy"), "chat");
    assert_eq!(action_category_prefix("session.new"), "system");
    assert_eq!(format_callback("system.confirm", &params(&[("callId", "1")])), "chat:system.confirm:callId=1");
}

fn confirmations_and_triggers_are_found() {
    let parsed = parse_callback("chat:system.confirm:callId=c1,value=yes");
    assert_eq!(confirmation(&parsed), Some(("c1".to_string(), "yes".to_string())));
    assert_eq!(confirmation(&parse_callback("system:help.show")), None);
    let context = || ActionContext {
        platform: PluginType::Lark,
        user_id: "u".into(),
        chat_id: "c".into(),
        message_id: None,
        session_id: None,
    };
    let action = trigger_action(parse_callback("platform:pairing.show"), context()).unwrap();
    assert_eq!(action.action, "pairing.show");
    assert_eq!(action.category, ActionCategory::Platform);
    assert_eq!(action.context.user_id, "u");
    assert!(trigger_action(None, context()).is_none());
}

fn an_event_is_new_once() {
    let mut seen = DedupCache::new();
    assert!(!seen.is_duplicate("e1", 100));
    assert!(seen.is_duplicate("e1", 200));
    assert!(!seen.is_duplicate("e2", 300));
    seen.cleanup_expired_events(150, 300);
    assert!(!seen.contains_key("e1"));
    assert!(seen.contains_key("e2"));
    assert!(!seen.is_duplicate("e1", 400));
}

fn requests_are_put_together() {
    let r = request(Method::Post, "https://x".into()).header("A", "b").param("q", "1").json(number(5));
    assert_eq!(r.method, Method::Post);
    assert_eq!(r.url, "https://x");
    assert_eq!(r.headers, vec![("A".to_string(), "b".to_string())]);
    assert_eq!(r.query, vec![("q".to_string(), "1".to_string())]);
    assert_eq!(r.body.unwrap().as_i64(), Some(5));
    assert!(is_rate_limited(429));
    assert!(!is_rate_limited(200));
}

fn milliseconds_become_seconds() {
    for ms in [0i64, 999, 1000, 1_700_000_000_123, -1, -999, -1000, -1001] {
        assert_eq!(seconds_of(ms), ms / 1000, "{}", ms);
    }
}

#[test]
fn connections_come_back() {
    waits_grow_up_to_the_cap();
    reconnecting_gives_up_after_ten_failures();
    ends_of_connections_are_told_apart();
    registered_connections_are_given_up_in_the_end();
}

#[test]
fn plugins_live_and_fail() {
    a_plugin_starts_once_and_only_when_ready();
    failures_are_kept();
}

#[test]
fn callbacks_are_understood() {
    callbacks_name_their_category();
    confirmations_and_triggers_are_found();
}

#[test]
fn small_parts_are_exact() {
    expiry_is_final();
    an_event_is_new_once();
    requests_are_put_together();
    milliseconds_become_seconds();
}
