//! Slack: events, the socket and the plugin.
use std::time::Duration;

use aionui_channel::error::ChannelError;
use aionui_channel::json::write_json;
use aionui_channel::plugins::dedup::DedupCache;
use aionui_channel::plugins::http::HttpRequest;
use aionui_channel::plugins::slack::api::{
    check_update, identity_of, parse_retry_after, posted_ts, retry_delay, socket_url, AuthTestResponse,
    OpenConnectionResponse, PostMessageResponse, SlackApi, SlackIdentity, UpdateMessageResponse,
};
use aionui_channel::plugins::slack::plugin::{require_bot_token, SlackPlugin};
use aionui_channel::plugins::slack::socket::{handle_event_callback, step, SocketEvent, SocketStep};
use aionui_channel::plugins::slack::types::{
    build_ack, event_to_unified, parse_ts_to_ms, strip_bot_mention, EventCallback, SlackEvent, SocketEnvelope,
};
use aionui_channel::text_map::TextMap;
use aionui_channel::types::{text_message, MessageContentType, PluginCredentials, PluginStatus, PluginType};

fn body_of(r: &HttpRequest) -> serde_json::Value {
    serde_json::from_str(&write_json(r.body.as_ref().unwrap())).unwrap()
}

fn make_config(bot_token: Option<&str>, app_token: Option<&str>) -> PluginCredentials {
    PluginCredentials {
        token: bot_token.map(|s| s.to_string()),
        app_id: None,
        app_secret: None,
        encrypt_key: None,
        verification_token: None,
        client_id: None,
        client_secret: None,
        account_id: None,
        bot_token: None,
        app_token: app_token.map(|s| s.to_string()),
        extra: TextMap::new(),
    }
}

fn app_mention_event() -> SlackEvent {
    SlackEvent {
        event_type: "app_mention".into(),
        user: Some("U1".into()),
        text: Some("<@U0BOT> summarize this".into()),
        ts: Some("1700000000.000100".into()),
        channel: Some("C1".into()),
        channel_type: None,
        thread_ts: None,
        bot_id: None,
        subtype: None,
        client_msg_id: Some("cmid-1".into()),
    }
}

#[test]
fn retry_after_parses_seconds() {
    assert_eq!(parse_retry_after(Some("3")).map(Duration::from_secs), Some(Duration::from_secs(3)));
}

#[test]
fn retry_after_caps_at_max() {
    // 99s is clamped to the 30s cap.
    assert_eq!(parse_retry_after(Some("99")).map(Duration::from_secs), Some(Duration::from_secs(30)));
}

#[test]
fn retry_after_missing_is_none() {
    assert_eq!(parse_retry_after(None), None);
}

#[test]
fn retry_after_non_numeric_is_none() {
    assert_eq!(parse_retry_after(Some("soon")), None);
}

fn retries_wait_a_second_by_default() {
    assert_eq!(retry_delay(None), 1);
    assert_eq!(retry_delay(Some("7")), 7);
    assert_eq!(retry_delay(Some("18446744073709551615")), 30);
}

#[test]
fn api_constructs_with_both_tokens() {
    let api = SlackApi::new("xoxb-abc", "xapp-def");
    assert_eq!(api.bot_token, "xoxb-abc");
    assert_eq!(api.app_token, "xapp-def");
}

#[test]
fn slack_identity_holds_user_id() {
    let id = SlackIdentity { user_id: "U0BOT".into(), user: Some("aion".into()) };
    assert_eq!(id.user_id, "U0BOT");
    assert_eq!(id.user.as_deref(), Some("aion"));
}

#[test]
fn require_bot_token_accepts_bot_token_only() {
    // No app_token supplied — the credential-test path — must still validate.
    let cfg = make_config(Some("xoxb-1"), None);
    assert_eq!(require_bot_token(&cfg).unwrap(), "xoxb-1");
}

#[test]
fn require_bot_token_missing_is_err() {
    let cfg = make_config(None, Some("xapp-1"));
    assert!(matches!(require_bot_token(&cfg), Err(ChannelError::InvalidConfig(_))));
}

#[test]
fn require_bot_token_empty_is_err() {
    let cfg = make_config(Some(""), Some("xapp-1"));
    assert!(matches!(require_bot_token(&cfg), Err(ChannelError::InvalidConfig(_))));
}

#[test]
fn plugin_test_initialize_missing_bot_token_fails() {
    let mut plugin = SlackPlugin::new();
    let result = plugin.initialize(&make_config(None, Some("xapp-1")));
    assert!(matches!(result, Err(ChannelError::InvalidConfig(_))));
    assert_eq!(plugin.state.status(), PluginStatus::Error);
    assert!(plugin.state.last_error().unwrap().contains("bot token"));
}

#[test]
fn plugin_test_initialize_empty_bot_token_fails() {
    let mut plugin = SlackPlugin::new();
    let result = plugin.initialize(&make_config(Some(""), Some("xapp-1")));
    assert!(matches!(result, Err(ChannelError::InvalidConfig(_))));
}

#[test]
fn start_without_app_token_fails() {
    // A fresh plugin has app_token_present == false (as it would after an
    // initialize that received only the bot token). start() must reject it
    // before opening any connection.
    let mut plugin = SlackPlugin::new();
    let result = plugin.start();
    assert!(matches!(result, Err(ChannelError::InvalidConfig(_))));
    assert_eq!(plugin.state.status(), PluginStatus::Error);
    assert!(plugin.state.last_error().unwrap().contains("app-level token"));
}

#[test]
fn post_message_request_omits_none_thread() {
    let v = body_of(&SlackApi::new("b", "a").post_message("C1", "hi", None));
    assert_eq!(v["channel"], "C1");
    assert!(v.get("thread_ts").is_none());
}

#[test]
fn post_message_request_includes_thread() {
    let v = body_of(&SlackApi::new("b", "a").post_message("C1", "hi", Some("1700000000.000001")));
    assert_eq!(v["thread_ts"], "1700000000.000001");
}

#[test]
fn build_ack_echoes_envelope_id() {
    let ack = build_ack("env-xyz");
    let v: serde_json::Value = serde_json::from_str(&ack).unwrap();
    assert_eq!(v["envelope_id"], "env-xyz");
}

#[test]
fn parse_ts_seconds_micros() {
    assert_eq!(parse_ts_to_ms("1700000000.000100"), 1_700_000_000_000);
}

#[test]
fn parse_ts_invalid_returns_zero() {
    assert_eq!(parse_ts_to_ms("not-a-ts"), 0);
}

fn timestamps_keep_their_milliseconds() {
    assert_eq!(parse_ts_to_ms("1700000000.123999"), 1_700_000_000_123);
    assert_eq!(parse_ts_to_ms("12"), 12_000);
    assert_eq!(parse_ts_to_ms(""), 0);
    assert_eq!(parse_ts_to_ms("1.001"), 1001);
    assert_eq!(parse_ts_to_ms("1e3"), 1_000_000);
    let stamps = [
        "1e3", "1E3", "1.5e+2", "12500e-3", ".5", "5.", "-2.25", "+7", "1e-9", "0e99999999999999999999", "-1e300",
        "1e99999999999999999999999999999999999", "1e-99999999999999999999999999999999999", "inf", "-Infinity", "NaN",
        "-nan", "infinit", "e3", "1e", "1e3.5", "1e3e3", ".", "-", "+-1", " 1", "1_0", "0x1", "9223372036854775807",
    ];
    for ts in stamps {
        let wanted = ts.parse::<f64>().map(|secs| (secs * 1000.0) as i64).unwrap_or(0);
        assert_eq!(parse_ts_to_ms(ts), wanted, "{}", ts);
    }
}

#[test]
fn strip_mention_leading() {
    assert_eq!(strip_bot_mention("<@U0BOT> hello there", "U0BOT"), "hello there");
}

#[test]
fn strip_mention_absent_is_noop() {
    assert_eq!(strip_bot_mention("plain text", "U0BOT"), "plain text");
}

fn labelled_mentions_are_stripped_too() {
    assert_eq!(strip_bot_mention("<@U0BOT|aion> hello", "U0BOT"), "hello");
    assert_eq!(strip_bot_mention("  <@U0BOT|aion>hello", "U0BOT"), "hello");
    assert_eq!(strip_bot_mention("a<@U0BOT|aion>b", "U0BOT"), "a<@|aion>b");
    assert_eq!(strip_bot_mention("<@U0BOT|aion> x <@U0BOT|aion>", "U0BOT"), "x <@|aion>");
    assert_eq!(strip_bot_mention("<@U0BOT|aion", "U0BOT"), "<@|aion");
    assert_eq!(strip_bot_mention("a <@U0BOT> b <@U9> c", "U0BOT"), "a  b <@U9> c");
    assert_eq!(strip_bot_mention(" <@> ", ""), "<@>");
}

#[test]
fn app_mention_normalizes_and_strips_mention() {
    let msg = event_to_unified(&app_mention_event(), "U0BOT").unwrap();
    assert_eq!(msg.platform, PluginType::Slack);
    assert_eq!(msg.chat_id, "C1");
    assert_eq!(msg.user.id, "U1");
    assert_eq!(msg.content.content_type, MessageContentType::Text);
    assert_eq!(msg.content.text, "summarize this");
    assert_eq!(msg.id, "cmid-1");
    assert_eq!(msg.timestamp, 1_700_000_000_000);
}

#[test]
fn direct_message_normalizes() {
    let evt = SlackEvent {
        event_type: "message".into(),
        user: Some("U9".into()),
        text: Some("hi bot".into()),
        ts: Some("1700000001.000200".into()),
        channel: Some("D1".into()),
        channel_type: Some("im".into()),
        thread_ts: None,
        bot_id: None,
        subtype: None,
        client_msg_id: None,
    };
    let msg = event_to_unified(&evt, "U0BOT").unwrap();
    assert_eq!(msg.chat_id, "D1");
    assert_eq!(msg.content.text, "hi bot");
    // No client_msg_id → id falls back to ts.
    assert_eq!(msg.id, "1700000001.000200");
}

#[test]
fn thread_ts_maps_to_reply_to() {
    let mut evt = app_mention_event();
    evt.thread_ts = Some("1700000000.000001".into());
    let msg = event_to_unified(&evt, "U0BOT").unwrap();
    assert_eq!(msg.reply_to_message_id.as_deref(), Some("1700000000.000001"));
}

#[test]
fn bot_own_message_is_ignored() {
    let mut evt = app_mention_event();
    evt.user = Some("U0BOT".into());
    assert!(event_to_unified(&evt, "U0BOT").is_none());
}

#[test]
fn other_bot_message_is_ignored() {
    let evt = SlackEvent {
        event_type: "message".into(),
        user: Some("U2".into()),
        text: Some("automated".into()),
        ts: Some("1700000002.0".into()),
        channel: Some("C1".into()),
        channel_type: None,
        thread_ts: None,
        bot_id: Some("B999".into()),
        subtype: None,
        client_msg_id: None,
    };
    assert!(event_to_unified(&evt, "U0BOT").is_none());
}

#[test]
fn message_changed_subtype_is_ignored() {
    let evt = SlackEvent {
        event_type: "message".into(),
        user: Some("U1".into()),
        text: Some("edited".into()),
        ts: Some("1700000003.0".into()),
        channel: Some("C1".into()),
        channel_type: Some("channel".into()),
        thread_ts: None,
        bot_id: None,
        subtype: Some("message_changed".into()),
        client_msg_id: None,
    };
    assert!(event_to_unified(&evt, "U0BOT").is_none());
}

#[test]
fn unhandled_event_type_is_ignored() {
    let evt = SlackEvent {
        event_type: "reaction_added".into(),
        user: Some("U1".into()),
        text: None,
        ts: Some("1700000004.0".into()),
        channel: Some("C1".into()),
        channel_type: None,
        thread_ts: None,
        bot_id: None,
        subtype: None,
        client_msg_id: None,
    };
    assert!(event_to_unified(&evt, "U0BOT").is_none());
}

#[test]
fn public_channel_message_is_rejected() {
    let evt = SlackEvent {
        event_type: "message".into(),
        user: Some("U1".into()),
        text: Some("hello channel".into()),
        ts: Some("1700000005.000100".into()),
        channel: Some("C1".into()),
        channel_type: Some("channel".into()),
        thread_ts: None,
        bot_id: None,
        subtype: None,
        client_msg_id: None,
    };
    assert!(event_to_unified(&evt, "U0BOT").is_none());
}

#[test]
fn dm_via_channel_prefix_is_accepted() {
    let evt = SlackEvent {
        event_type: "message".into(),
        user: Some("U1".into()),
        text: Some("hi".into()),
        ts: Some("1700000006.000100".into()),
        channel: Some("D9".into()),
        channel_type: None,
        thread_ts: None,
        bot_id: None,
        subtype: None,
        client_msg_id: None,
    };
    assert!(event_to_unified(&evt, "U0BOT").is_some());
}

#[test]
fn app_mention_in_public_channel_is_not_gated() {
    let evt = SlackEvent {
        event_type: "app_mention".into(),
        user: Some("U1".into()),
        text: Some("<@U0BOT> help".into()),
        ts: Some("1700000007.000100".into()),
        channel: Some("C1".into()),
        channel_type: Some("channel".into()),
        thread_ts: None,
        bot_id: None,
        subtype: None,
        client_msg_id: None,
    };
    let msg = event_to_unified(&evt, "U0BOT").unwrap();
    assert_eq!(msg.chat_id, "C1");
    assert_eq!(msg.content.text, "help");
}

#[test]
fn event_callback_forwards_app_mention_once() {
    let mut cache = DedupCache::new();
    let mut event = app_mention_event();
    event.text = Some("<@U0BOT> hi".into());
    let payload = EventCallback { event: Some(event), event_id: Some("EvA".into()) };

    let msg = handle_event_callback(&mut cache, &payload, "U0BOT", 0).expect("first delivery");
    assert_eq!(msg.chat_id, "C1");
    assert_eq!(msg.content.text, "hi");

    // Same event_id again → deduped, nothing forwarded.
    assert!(handle_event_callback(&mut cache, &payload, "U0BOT", 0).is_none());
}

#[test]
fn event_callback_drops_bot_echo() {
    let mut cache = DedupCache::new();
    let mut event = app_mention_event();
    event.event_type = "message".into();
    event.user = Some("U0BOT".into());
    event.text = Some("echo".into());
    event.ts = Some("1700000000.0".into());
    let payload = EventCallback { event: Some(event), event_id: Some("EvB".into()) };
    assert!(handle_event_callback(&mut cache, &payload, "U0BOT", 0).is_none());
}

fn envelope(kind: &str, id: Option<&str>, payload: Option<EventCallback>) -> SocketEvent {
    SocketEvent::Envelope(SocketEnvelope {
        envelope_type: kind.into(),
        envelope_id: id.map(|s| s.to_string()),
        payload,
        reason: None,
    })
}

fn every_envelope_is_answered() {
    let mut seen = DedupCache::new();
    let payload = EventCallback { event: Some(app_mention_event()), event_id: Some("E1".into()) };
    let (ack, next) = step(&mut seen, &envelope("events_api", Some("env-1"), Some(payload)), "U0BOT", 0);
    assert_eq!(ack.as_deref(), Some(build_ack("env-1").as_str()));
    assert!(matches!(next, SocketStep::Forward(m) if m.content.text == "summarize this"));
    let (ack, next) = step(&mut seen, &envelope("hello", None, None), "U0BOT", 0);
    assert!(ack.is_none());
    assert!(matches!(next, SocketStep::Nothing));
    let (_, next) = step(&mut seen, &envelope("disconnect", None, None), "U0BOT", 0);
    assert!(matches!(next, SocketStep::Finish));
    assert!(matches!(step(&mut seen, &SocketEvent::Ping, "U0BOT", 0).1, SocketStep::Pong));
    assert!(matches!(step(&mut seen, &SocketEvent::Unreadable, "U0BOT", 0).1, SocketStep::Nothing));
    assert!(matches!(
        step(&mut seen, &SocketEvent::ReadError("x".into()), "U0BOT", 0).1,
        SocketStep::Fail(ChannelError::ConnectionFailed(_))
    ));
}

fn replies_of_slack_are_read() {
    let auth = |ok: bool, id: Option<&str>| AuthTestResponse {
        ok,
        error: Some("invalid_auth".into()),
        user: Some("aion".into()),
        user_id: id.map(|s| s.to_string()),
    };
    assert_eq!(identity_of(auth(true, Some("U0"))).unwrap().user_id, "U0");
    assert!(identity_of(auth(false, Some("U0"))).unwrap_err().message().contains("invalid_auth"));
    assert_eq!(identity_of(auth(true, None)).unwrap().user_id, "");
    let open = |ok: bool, url: Option<&str>| OpenConnectionResponse {
        ok,
        url: url.map(|s| s.to_string()),
        error: None,
    };
    assert_eq!(socket_url(open(true, Some("wss://x"))), Ok("wss://x".to_string()));
    assert!(socket_url(open(true, None)).is_err());
    assert!(socket_url(open(false, None)).is_err());
    let post = |ok: bool, ts: Option<&str>| PostMessageResponse {
        ok,
        ts: ts.map(|s| s.to_string()),
        error: Some("channel_not_found".into()),
    };
    assert_eq!(posted_ts(post(true, Some("1.2"))), Ok("1.2".to_string()));
    assert!(posted_ts(post(false, None)).unwrap_err().message().contains("channel_not_found"));
    assert!(check_update(UpdateMessageResponse { ok: true, error: None }).is_ok());
    assert!(check_update(UpdateMessageResponse { ok: false, error: None }).is_err());
}

fn the_plugin_posts_and_updates() {
    let mut plugin = SlackPlugin::new();
    let message = text_message("**hi**".to_string());
    assert!(plugin.send_message("C1", &message, 4000).is_err());
    let api = plugin.initialize(&make_config(Some("xoxb"), Some("xapp"))).unwrap();
    plugin.identified(api, SlackIdentity { user_id: "U0BOT".into(), user: Some("aion".into()) });
    assert_eq!(plugin.bot_user_id, "U0BOT");
    assert!(plugin.start().is_ok());
    assert_eq!(plugin.state.status(), PluginStatus::Running);
    let sent = plugin.send_message("C1", &message, 4000).unwrap();
    assert!(sent.url.ends_with("chat.postMessage"));
    assert!(sent.headers.contains(&("Authorization".to_string(), "Bearer xoxb".to_string())));
    assert_eq!(body_of(&sent)["text"], "**hi**");
    let edited = plugin.edit_message("C1", "1.2", &message, 4000).unwrap();
    assert!(edited.url.ends_with("chat.update"));
    assert_eq!(body_of(&edited)["ts"], "1.2");
    let open = SlackApi::new("b", "xapp").open_connection();
    assert!(open.headers.contains(&("Authorization".to_string(), "Bearer xapp".to_string())));
    assert!(SlackApi::new("b", "a").auth_test().url.ends_with("auth.test"));
}

#[test]
fn slack_texts_are_exact() {
    retries_wait_a_second_by_default();
    timestamps_keep_their_milliseconds();
    labelled_mentions_are_stripped_too();
}

#[test]
fn slack_is_asked_and_answers() {
    every_envelope_is_answered();
    replies_of_slack_are_read();
    the_plugin_posts_and_updates();
}
