//! Discord: messages, the gateway and the plugin.
use aionui_channel::error::ChannelError;
use aionui_channel::json::write_json;
use aionui_channel::plugins::dedup::DedupCache;
use aionui_channel::plugins::discord::api::{
    check_create_message, check_current_user, check_edit_message, check_gateway_bot, identity_of, CurrentUser,
    DiscordApi, DiscordIdentity,
};
use aionui_channel::plugins::discord::gateway::{
    gateway_ws_url, heartbeat_interval, opening_frame, plan_connection, FirstMessage, Gateway, GatewayEvent,
    GatewayStep, Session,
};
use aionui_channel::plugins::discord::op;
use aionui_channel::plugins::discord::plugin::DiscordPlugin;
use aionui_channel::plugins::discord::types::{
    build_heartbeat, build_identify, build_resume, message_to_unified, snowflake_to_ms, strip_bot_mention,
    AllowedMentions, Author, GatewayFrame, Hello, IncomingMessageReference, MentionUser, MessageCreate, Ready,
    ReadyUser, DISCORD_INTENTS,
};
use aionui_channel::plugins::http::{HttpRequest, Method};
use aionui_channel::text_map::TextMap;
use aionui_channel::types::{text_message, MessageContentType, PluginCredentials, PluginStatus, PluginType};

fn body_of(r: &HttpRequest) -> serde_json::Value {
    serde_json::from_str(&write_json(r.body.as_ref().unwrap())).unwrap()
}

fn message(id: &str, channel: &str, author: &str, content: &str) -> MessageCreate {
    MessageCreate {
        id: id.into(),
        channel_id: channel.into(),
        guild_id: None,
        author: Author { id: author.into(), username: None, global_name: None, bot: None },
        content: content.into(),
        mentions: vec![],
        message_reference: None,
    }
}

fn dm_message() -> MessageCreate {
    let mut m = message("175928847299117063", "D1", "U1", "hi bot");
    m.author.username = Some("alice".into());
    m.author.global_name = Some("Alice".into());
    m
}

fn frame(op: u8, t: Option<&str>, s: Option<u64>) -> GatewayFrame {
    GatewayFrame { op, d: None, s, t: t.map(|x| x.to_string()) }
}

fn ready() -> Option<Ready> {
    Some(Ready {
        session_id: "sess1".into(),
        resume_gateway_url: "wss://resume.example".into(),
        user: ReadyUser { id: "BOT1".into() },
    })
}

fn gateway() -> Gateway {
    Gateway::new(Session::new(), DedupCache::new())
}

#[test]
fn api_uses_bot_auth_header() {
    let api = DiscordApi::new("abc.def.ghi");
    assert_eq!(api.auth_header(), "Bot abc.def.ghi");
    assert_eq!(api.token, "abc.def.ghi");
}

#[test]
fn discord_identity_holds_id() {
    let id = DiscordIdentity { id: "BOT1".into(), display_name: Some("aion".into()) };
    assert_eq!(id.id, "BOT1");
    assert_eq!(id.display_name.as_deref(), Some("aion"));
}

#[test]
fn ws_url_appends_query() {
    assert_eq!(gateway_ws_url("wss://gateway.discord.gg"), "wss://gateway.discord.gg/?v=10&encoding=json");
}

#[test]
fn ws_url_trims_trailing_slash() {
    assert_eq!(gateway_ws_url("wss://gateway.discord.gg/"), "wss://gateway.discord.gg/?v=10&encoding=json");
}

#[test]
fn intents_bitfield_is_expected_sum() {
    // GUILDS(1) + GUILD_MESSAGES(512) + DIRECT_MESSAGES(4096) + MESSAGE_CONTENT(32768)
    assert_eq!(DISCORD_INTENTS, 1 + 512 + 4096 + 32768);
}

#[test]
fn identify_has_op_and_intents() {
    let v: serde_json::Value = serde_json::from_str(&build_identify("tok")).unwrap();
    assert_eq!(v["op"], op::IDENTIFY);
    assert_eq!(v["d"]["token"], "tok");
    assert_eq!(v["d"]["intents"], DISCORD_INTENTS);
    assert_eq!(v["d"]["properties"]["browser"], "aionui");
}

#[test]
fn heartbeat_carries_seq_or_null() {
    let with = serde_json::from_str::<serde_json::Value>(&build_heartbeat(Some(42))).unwrap();
    assert_eq!(with["op"], op::HEARTBEAT);
    assert_eq!(with["d"], 42);
    let without = serde_json::from_str::<serde_json::Value>(&build_heartbeat(None)).unwrap();
    assert!(without["d"].is_null());
}

#[test]
fn resume_has_op_and_fields() {
    let v: serde_json::Value = serde_json::from_str(&build_resume("tok", "sess", 7)).unwrap();
    assert_eq!(v["op"], op::RESUME);
    assert_eq!(v["d"]["session_id"], "sess");
    assert_eq!(v["d"]["seq"], 7);
}

#[test]
fn snowflake_matches_discord_documented_example() {
    // Discord docs example: snowflake 175928847299117063 → 1462015105796 ms.
    assert_eq!(snowflake_to_ms("175928847299117063"), 1_462_015_105_796);
}

#[test]
fn snowflake_invalid_returns_zero() {
    assert_eq!(snowflake_to_ms("not-a-snowflake"), 0);
}

#[test]
fn strip_plain_mention() {
    assert_eq!(strip_bot_mention("<@123> hello", "123"), "hello");
}

#[test]
fn strip_nick_mention() {
    assert_eq!(strip_bot_mention("<@!123> hi there", "123"), "hi there");
}

#[test]
fn strip_absent_is_noop() {
    assert_eq!(strip_bot_mention("plain", "123"), "plain");
}

#[test]
fn dm_is_accepted_and_normalized() {
    let msg = message_to_unified(&dm_message(), "BOT1").unwrap();
    assert_eq!(msg.platform, PluginType::Discord);
    assert_eq!(msg.chat_id, "D1");
    assert_eq!(msg.user.id, "U1");
    assert_eq!(msg.user.display_name, "Alice");
    assert_eq!(msg.content.content_type, MessageContentType::Text);
    assert_eq!(msg.content.text, "hi bot");
    assert_eq!(msg.timestamp, 1_462_015_105_796);
}

#[test]
fn guild_mention_is_accepted_and_stripped() {
    let mut m = message("175928847299117063", "C1", "U1", "<@BOT1> summarize");
    m.guild_id = Some("G1".into());
    m.author.username = Some("alice".into());
    m.mentions = vec![MentionUser { id: "BOT1".into() }];
    let msg = message_to_unified(&m, "BOT1").unwrap();
    assert_eq!(msg.chat_id, "C1");
    assert_eq!(msg.content.text, "summarize");
}

#[test]
fn guild_without_mention_is_rejected() {
    let mut m = message("175928847299117063", "C1", "U1", "hello channel");
    m.guild_id = Some("G1".into());
    assert!(message_to_unified(&m, "BOT1").is_none());
}

#[test]
fn bot_authored_message_is_rejected() {
    let mut m = message("175928847299117063", "D1", "U9", "automated");
    m.author.bot = Some(true);
    assert!(message_to_unified(&m, "BOT1").is_none());
}

#[test]
fn own_message_is_rejected() {
    let mut m = message("175928847299117063", "D1", "BOT1", "echo");
    m.author.username = Some("self".into());
    assert!(message_to_unified(&m, "BOT1").is_none());
}

#[test]
fn reply_reference_maps_to_reply_to() {
    let mut m = message("175928847299117063", "D1", "U1", "re");
    m.message_reference = Some(IncomingMessageReference { message_id: Some("999".into()) });
    let msg = message_to_unified(&m, "BOT1").unwrap();
    assert_eq!(msg.reply_to_message_id.as_deref(), Some("999"));
}

#[test]
fn display_name_falls_back_to_username_then_id() {
    let mut m = message("175928847299117063", "D1", "U1", "x");
    m.author.username = Some("bob".into());
    assert_eq!(message_to_unified(&m, "BOT1").unwrap().user.display_name, "bob");
}

#[test]
fn dispatch_ready_sets_session() {
    let mut g = gateway();
    g.handle_dispatch(&frame(0, Some("READY"), Some(1)), ready(), None, "BOT1", 0);
    assert_eq!(g.session.id.as_deref(), Some("sess1"));
    // READY stores the RAW resume URL (the connect site adds the query once).
    assert_eq!(g.session.resume_url.as_deref(), Some("wss://resume.example"));
}

#[test]
fn resume_connect_url_has_single_query() {
    let mut g = gateway();
    g.handle_dispatch(&frame(0, Some("READY"), Some(1)), ready(), None, "BOT1", 0);
    let connect_url = gateway_ws_url(g.session.resume_url.as_deref().unwrap());
    assert_eq!(connect_url, "wss://resume.example/?v=10&encoding=json");
    assert_eq!(connect_url.matches("?v=10&encoding=json").count(), 1);
}

#[test]
fn dispatch_message_create_dm_forwards_once() {
    let mut g = gateway();
    let f = frame(0, Some("MESSAGE_CREATE"), Some(2));
    let dm = || Some(message("175928847299117063", "D1", "U1", "hi"));
    let msg = g.handle_dispatch(&f, None, dm(), "BOT1", 0).expect("forwarded");
    assert_eq!(msg.chat_id, "D1");
    assert_eq!(msg.content.text, "hi");

    // Same message id again → deduped.
    assert!(g.handle_dispatch(&f, None, dm(), "BOT1", 0).is_none());
}

#[test]
fn dispatch_guild_without_mention_dropped() {
    let mut g = gateway();
    let mut m = message("175928847299117064", "C1", "U1", "hello");
    m.guild_id = Some("G1".into());
    assert!(g.handle_dispatch(&frame(0, Some("MESSAGE_CREATE"), Some(3)), None, Some(m), "BOT1", 0).is_none());
}

fn a_ready_session_is_resumed() {
    let mut g = gateway();
    assert!(plan_connection(&g.session).is_none());
    let step = g.step(GatewayEvent::Frame(frame(op::DISPATCH, Some("READY"), Some(4)), ready(), None), "BOT1", 0);
    assert!(matches!(step, GatewayStep::Nothing));
    assert_eq!(g.session.last_seq, Some(4));
    assert_eq!(plan_connection(&g.session).as_deref(), Some("wss://resume.example"));
    assert_eq!(opening_frame(true, &g.session, "tok"), build_resume("tok", "sess1", 4));
    assert_eq!(opening_frame(false, &g.session, "tok"), build_identify("tok"));
}

fn an_invalid_session_starts_afresh() {
    let mut g = gateway();
    g.step(GatewayEvent::Frame(frame(op::DISPATCH, Some("READY"), Some(4)), ready(), None), "BOT1", 0);
    let mut invalid = frame(op::INVALID_SESSION, None, None);
    invalid.d = Some("false".into());
    assert!(matches!(g.step(GatewayEvent::Frame(invalid, None, None), "BOT1", 0), GatewayStep::Reconnect));
    assert!(plan_connection(&g.session).is_none());
}

fn heartbeats_need_answers() {
    let mut g = gateway();
    match g.step(GatewayEvent::Tick, "BOT1", 0) {
        GatewayStep::Send(text) => assert_eq!(text, build_heartbeat(None)),
        other => panic!("{:?}", other),
    }
    g.step(GatewayEvent::Frame(frame(op::HEARTBEAT_ACK, None, None), None, None), "BOT1", 0);
    assert!(matches!(g.step(GatewayEvent::Tick, "BOT1", 0), GatewayStep::Send(_)));
    assert!(matches!(g.step(GatewayEvent::Tick, "BOT1", 0), GatewayStep::Fail(_)));
}

fn other_events_of_the_gateway() {
    let mut g = gateway();
    let asked = g.step(GatewayEvent::Frame(frame(op::HEARTBEAT, None, None), None, None), "BOT1", 0);
    assert!(matches!(asked, GatewayStep::Send(_)));
    let again = g.step(GatewayEvent::Frame(frame(op::RECONNECT, None, None), None, None), "BOT1", 0);
    assert!(matches!(again, GatewayStep::Reconnect));
    assert!(matches!(g.step(GatewayEvent::Ping, "BOT1", 0), GatewayStep::Pong));
    assert!(matches!(g.step(GatewayEvent::Unreadable, "BOT1", 0), GatewayStep::Nothing));
    assert!(matches!(g.step(GatewayEvent::Shutdown, "BOT1", 0), GatewayStep::Shutdown));
    assert!(matches!(g.step(GatewayEvent::Close, "BOT1", 0), GatewayStep::Reconnect));
    let failed = g.step(GatewayEvent::ReadError("x".into()), "BOT1", 0);
    assert!(matches!(failed, GatewayStep::Fail(ChannelError::ConnectionFailed(_))));
    let hello = FirstMessage::Frame(op::HELLO, Some(Hello { heartbeat_interval: 41250 }));
    assert_eq!(heartbeat_interval(hello), Ok(41250));
    assert!(heartbeat_interval(FirstMessage::Other).is_err());
    assert!(heartbeat_interval(FirstMessage::Frame(op::DISPATCH, None)).is_err());
    assert!(heartbeat_interval(FirstMessage::Unreadable("bad".into())).is_err());
}

fn nobody_is_notified() {
    assert!(AllowedMentions::none().parse.is_empty());
    let created = DiscordApi::new("t").create_message("C1", "@everyone", Some("99"));
    let v = body_of(&created);
    assert_eq!(v["content"], "@everyone");
    assert_eq!(v["allowed_mentions"]["parse"].as_array().unwrap().len(), 0);
    assert_eq!(v["message_reference"]["message_id"], "99");
    let edited = DiscordApi::new("t").edit_message("C1", "M1", "x");
    assert_eq!(edited.method, Method::Patch);
    assert!(edited.url.ends_with("/channels/C1/messages/M1"));
    assert_eq!(body_of(&edited)["allowed_mentions"]["parse"].as_array().unwrap().len(), 0);
    assert!(body_of(&DiscordApi::new("t").create_message("C1", "x", None)).get("message_reference").is_none());
}

fn replies_of_discord_are_read() {
    let user = |name: Option<&str>, global: Option<&str>| CurrentUser {
        id: "BOT1".into(),
        username: name.map(|s| s.to_string()),
        global_name: global.map(|s| s.to_string()),
    };
    assert_eq!(identity_of(user(Some("u"), Some("g"))).display_name.as_deref(), Some("g"));
    assert_eq!(identity_of(user(Some("u"), None)).display_name.as_deref(), Some("u"));
    assert!(identity_of(user(None, None)).display_name.is_none());
    for check in [check_gateway_bot, check_current_user, check_create_message, check_edit_message] {
        assert!(check(true, "200 OK").is_ok());
        assert!(check(false, "403 Forbidden").unwrap_err().message().contains("403 Forbidden"));
    }
    assert!(DiscordApi::new("t").get_gateway_bot().url.ends_with("/gateway/bot"));
    assert!(DiscordApi::new("t").get_current_user().url.ends_with("/users/@me"));
}

fn credentials(token: Option<&str>) -> PluginCredentials {
    PluginCredentials {
        token: token.map(|s| s.to_string()),
        app_id: None,
        app_secret: None,
        encrypt_key: None,
        verification_token: None,
        client_id: None,
        client_secret: None,
        account_id: None,
        bot_token: None,
        app_token: None,
        extra: TextMap::new(),
    }
}

#[test]
fn initialize_missing_token_fails() {
    let mut plugin = DiscordPlugin::new();
    let result = plugin.initialize(&credentials(None));
    assert!(matches!(result, Err(ChannelError::InvalidConfig(_))));
    assert_eq!(plugin.state.status(), PluginStatus::Error);
    assert!(plugin.state.last_error().unwrap().contains("token"));
}

#[test]
fn initialize_empty_token_fails() {
    let mut plugin = DiscordPlugin::new();
    let result = plugin.initialize(&credentials(Some("")));
    assert!(matches!(result, Err(ChannelError::InvalidConfig(_))));
    assert_eq!(plugin.state.status(), PluginStatus::Error);
}

fn the_plugin_sends_and_edits() {
    let mut plugin = DiscordPlugin::new();
    let out = text_message("hello".to_string());
    assert!(plugin.send_message("C1", &out, 2000).is_err());
    let api = plugin.initialize(&credentials(Some("tok"))).unwrap();
    plugin.identified(api, DiscordIdentity { id: "BOT1".into(), display_name: None });
    assert_eq!(plugin.bot_user_id, "BOT1");
    assert_eq!(plugin.state.status(), PluginStatus::Ready);
    let sent = plugin.send_message("C1", &out, 2000).unwrap();
    assert_eq!(sent.method, Method::Post);
    assert!(sent.headers.contains(&("Authorization".to_string(), "Bot tok".to_string())));
    assert_eq!(body_of(&plugin.send_message("C1", &out, 4).unwrap())["content"], "h...");
    let edited = plugin.edit_message("C1", "M1", &out, 2000).unwrap();
    assert_eq!(body_of(&edited)["content"], "hello");
}

#[test]
fn the_gateway_takes_its_steps() {
    a_ready_session_is_resumed();
    an_invalid_session_starts_afresh();
    heartbeats_need_answers();
    other_events_of_the_gateway();
}

#[test]
fn discord_is_asked_and_answers() {
    nobody_is_notified();
    replies_of_discord_are_read();
    the_plugin_sends_and_edits();
}
