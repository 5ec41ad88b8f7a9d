//! DingTalk: streams, callbacks, cards and the plugin.
use aionui_channel::error::ChannelError;
use aionui_channel::json::{object, write_json, Json};
use aionui_channel::plugins::dingtalk::api::{
    check_created, field_order_text, put_card_fields, robot_message_id, stream_url, token_of, AccessTokenResponse,
    DingtalkApi, RegisterStreamResponse, RobotInfoResponse,
};
use aionui_channel::plugins::dingtalk::plugin::{
    after_reply, build_ack, build_final_card_param_map, card_from_action, extract_message_content, generate_guid,
    generate_out_track_id, handle_bot_message, handle_card_action, handle_stream_frame, note_event, open_card_fields,
    step, DingtalkPlugin, SendNext, SendStage, StreamEvent, StreamStep, StreamWork,
};
use aionui_channel::plugins::dingtalk::types::{
    build_open_space_id, decode_chat_id, encode_chat_id, AckHeaders, BotMessageCallback, CardActionCallback,
    StreamAck, StreamFrame, StreamHeaders, TextPayload,
};
use aionui_channel::plugins::reconnect::{after_stream, Next, Outcome, StreamAttempts};
use aionui_channel::plugins::http::{HttpRequest, Method};
use aionui_channel::text_map::TextMap;
use aionui_channel::types::{
    text_message, ActionButton, MessageContentType, PluginCredentials, PluginStatus, PluginType,
    UnifiedOutgoingMessage,
};

fn value_of(j: &Json) -> serde_json::Value {
    serde_json::from_str(&write_json(j)).unwrap()
}

fn body_of(r: &HttpRequest) -> serde_json::Value {
    value_of(r.body.as_ref().unwrap())
}

fn callback() -> BotMessageCallback {
    BotMessageCallback {
        conversation_id: None,
        msg_id: None,
        msgtype: None,
        text: None,
        sender_id: None,
        sender_nick: None,
        sender_staff_id: None,
        session_webhook: None,
        session_webhook_expired_time: None,
        conversation_type: None,
        is_in_at_list: None,
        at_users: None,
        create_at: None,
        robot_code: None,
    }
}

fn buttons(label: &str) -> Option<Vec<Vec<ActionButton>>> {
    Some(vec![vec![ActionButton { label: label.into(), action: "system.confirm".into(), params: None }]])
}

fn frame(frame_type: &str, message_id: Option<&str>, topic: Option<&str>, data: Option<&str>) -> StreamFrame {
    StreamFrame {
        frame_type: frame_type.into(),
        headers: StreamHeaders {
            content_type: Some("application/json".into()),
            message_id: message_id.map(|s| s.to_string()),
            topic: topic.map(|s| s.to_string()),
        },
        data: data.map(|s| s.to_string()),
    }
}

#[test]
fn client_id_accessor() {
    let api = DingtalkApi::new("my_key", "my_secret");
    assert_eq!(api.client_id(), "my_key");
}

#[test]
fn extract_picture_content() {
    let mut cb = callback();
    cb.msgtype = Some("picture".into());
    let (ct, _) = extract_message_content("picture", &cb);
    assert_eq!(ct, MessageContentType::Photo);
}

#[test]
fn build_final_card_param_map_text_only() {
    let map = value_of(&build_final_card_param_map("Hello", &None));
    assert_eq!(map["flowStatus"], "3");
    assert_eq!(map["msgContent"], "Hello");
    assert!(map.get("actions").is_none());
}

#[test]
fn build_final_card_param_map_with_buttons() {
    let map = value_of(&build_final_card_param_map("Choose:", &buttons("Yes")));
    assert_eq!(map["flowStatus"], "3");
    assert_eq!(map["msgContent"], "Choose:");
    let actions = map["actions"].as_array().unwrap();
    assert_eq!(actions[0]["label"], "Yes");
    assert!(actions[0]["action"].as_str().unwrap().contains("system.confirm"));
}

#[test]
fn build_ack_structure() {
    let ack = build_ack("msg_123");
    assert_eq!(ack.code, 200);
    assert_eq!(ack.headers.message_id, "msg_123");
    assert_eq!(ack.message, "OK");
    assert_eq!(ack.data, r#"{"response":"SUCCESS"}"#);
}

#[test]
fn build_ack_data_contains_response_success() {
    let ack = build_ack("msg_456");
    assert_eq!(ack.code, 200);
    assert_eq!(ack.headers.message_id, "msg_456");
    let data: serde_json::Value = serde_json::from_str(&ack.data).unwrap();
    assert_eq!(data["response"], "SUCCESS");
}

#[test]
fn build_final_card_param_map_empty_text_with_buttons() {
    let map = value_of(&build_final_card_param_map("", &buttons("Confirm")));
    assert_eq!(map["flowStatus"], "3");
    assert_eq!(map["msgContent"], "");
    let actions = map["actions"].as_array().unwrap();
    assert_eq!(actions.len(), 1);
    assert_eq!(actions[0]["label"], "Confirm");
}

#[test]
fn edit_message_not_initialized_returns_error() {
    let plugin = DingtalkPlugin::new();
    let msg = text_message("hello".to_string());
    let result = plugin.edit_message("tok", "msg1", &msg, "guid", 4000);
    assert!(result.is_err());
    let err = result.unwrap_err().message();
    assert!(err.contains("not initialized"), "expected init error: {err}");
}

#[test]
fn send_message_not_initialized_returns_error() {
    let plugin = DingtalkPlugin::new();
    let msg = text_message("hello".to_string());
    let result = plugin.send_message(&msg);
    assert!(result.is_err());
    let err = result.unwrap_err().message();
    assert!(err.contains("not initialized"), "expected init error: {err}");
}

#[test]
fn handle_stream_frame_system_ping_returns_ack() {
    let (result, _) = handle_stream_frame(&frame("SYSTEM", Some("ping_001"), Some("ping"), Some("{}")));
    assert!(result.is_some(), "SYSTEM ping should return an ack");
    let ack = result.unwrap();
    assert_eq!(ack.code, 200);
    assert_eq!(ack.headers.message_id, "ping_001");
}

#[test]
fn handle_stream_frame_system_connected_returns_none() {
    let f = frame("SYSTEM", None, Some("CONNECTED"), Some("{\"code\":200,\"message\":\"OK\"}"));
    let (result, _) = handle_stream_frame(&f);
    assert!(result.is_none(), "Non-ping SYSTEM frames should not return ack");
}

#[test]
fn handle_stream_frame_callback_emits_message() {
    let f = frame("CALLBACK", Some("cb_msg_001"), Some("/v1.0/im/bot/messages/get"), Some("{\"msgId\":\"dt_msg_123\"}"));
    let (result, work) = handle_stream_frame(&f);

    assert!(result.is_some());
    let ack = result.unwrap();
    assert_eq!(ack.code, 200);
    assert_eq!(ack.headers.message_id, "cb_msg_001");
    assert!(matches!(work, StreamWork::BotMessage(data) if data.contains("dt_msg_123")));

    let mut cb = callback();
    cb.msg_id = Some("dt_msg_123".into());
    cb.msgtype = Some("text".into());
    cb.text = Some(TextPayload { content: Some("hello bot".into()) });
    cb.sender_staff_id = Some("staff_abc".into());
    cb.sender_nick = Some("Alice".into());
    cb.conversation_type = Some("1".into());
    cb.create_at = Some(1700000000000);
    let msg = handle_bot_message(&cb, 0);
    assert_eq!(msg.id, "dt_msg_123");
    assert_eq!(msg.chat_id, "user:staff_abc");
    assert_eq!(msg.content.text, "hello bot");
    assert_eq!(msg.user.display_name, "Alice");
    assert_eq!(msg.platform, PluginType::Dingtalk);
}

#[test]
fn handle_stream_frame_card_action_emits_confirm() {
    let f = frame("CALLBACK", Some("cb_card_001"), Some("/v1.0/card/instances/callback"), Some("{}"));
    let (result, work) = handle_stream_frame(&f);
    assert!(result.is_some());
    assert!(matches!(work, StreamWork::CardAction(_)));

    let cb = CardActionCallback {
        user_id: Some("user_xyz".into()),
        open_conversation_id: Some("".into()),
        content: Some(r#"{"action":"chat:system.confirm:callId=call_123,value=yes"}"#.into()),
    };
    let (call_id, value) = handle_card_action(&cb, 0).confirm.unwrap();
    assert_eq!(call_id, "call_123");
    assert_eq!(value, "yes");
}

#[test]
fn access_token_request_serializes() {
    let json = body_of(&DingtalkApi::new("key_1", "secret_1").refresh_token());
    assert_eq!(json["appKey"], "key_1");
    assert_eq!(json["appSecret"], "secret_1");
}

#[test]
fn register_stream_request_includes_credentials() {
    let json = body_of(&DingtalkApi::new("my_client_id", "my_secret").register_stream());
    assert_eq!(json["clientId"], "my_client_id");
    assert_eq!(json["clientSecret"], "my_secret");
    assert_eq!(json["ua"], "aioncore");
    assert_eq!(json["subscriptions"][0]["type"], "EVENT");
    assert_eq!(json["subscriptions"][0]["topic"], "*");
    assert_eq!(json["subscriptions"][1]["type"], "CALLBACK");
}

#[test]
fn stream_ack_serializes() {
    let ack = StreamAck {
        code: 200,
        headers: AckHeaders { content_type: "application/json".into(), message_id: "msg_1".into() },
        message: "OK".into(),
        data: "{}".into(),
    };
    let json = value_of(&ack.to_json());
    assert_eq!(json["code"], 200);
    assert_eq!(json["headers"]["contentType"], "application/json");
    assert_eq!(json["headers"]["messageId"], "msg_1");
    let text: serde_json::Value = serde_json::from_str(&ack.to_text()).unwrap();
    assert_eq!(text, json);
}

#[test]
fn create_card_instance_request_serializes() {
    let json = body_of(&DingtalkApi::new("k", "s").create_card_instance("tok", "aion_123_0"));
    assert_eq!(json["cardTemplateId"], "382e4302-551d-4880-bf29-a30acfab2e71.schema");
    assert_eq!(json["outTrackId"], "aion_123_0");
    assert_eq!(json["callbackType"], "STREAM");
    assert_eq!(json["imGroupOpenSpaceModel"]["supportForward"], true);
    assert_eq!(json["imRobotOpenSpaceModel"]["supportForward"], true);
}

#[test]
fn streaming_write_request_serializes() {
    let json = body_of(&DingtalkApi::new("k", "s").streaming_write("tok", "card_1", "chunk text", false, "123_abc"));
    assert_eq!(json["outTrackId"], "card_1");
    assert_eq!(json["key"], "msgContent");
    assert_eq!(json["content"], "chunk text");
    assert_eq!(json["isFull"], true);
    assert_eq!(json["isFinalize"], false);
    assert_eq!(json["isError"], false);
    assert_eq!(json["guid"], "123_abc");
}

#[test]
fn encode_chat_id_group() {
    let result = encode_chat_id(Some("2"), Some("conv_123"), "staff_1");
    assert_eq!(result, "group:conv_123");
}

#[test]
fn encode_chat_id_private() {
    let result = encode_chat_id(Some("1"), Some("cid_private_xyz"), "staff_1");
    assert_eq!(result, "user:staff_1");
}

#[test]
fn encode_chat_id_no_conversation_type() {
    let result = encode_chat_id(None, Some("cid_whatever"), "staff_1");
    assert_eq!(result, "user:staff_1");
}

#[test]
fn decode_chat_id_group() {
    let (is_group, id) = decode_chat_id("group:conv_123");
    assert!(is_group);
    assert_eq!(id, "conv_123");
}

#[test]
fn decode_chat_id_user() {
    let (is_group, id) = decode_chat_id("user:staff_1");
    assert!(!is_group);
    assert_eq!(id, "staff_1");
}

#[test]
fn decode_chat_id_unknown_prefix() {
    let (is_group, id) = decode_chat_id("raw_id");
    assert!(!is_group);
    assert_eq!(id, "raw_id");
}

#[test]
fn build_open_space_id_group() {
    let result = build_open_space_id("group:conv_123");
    assert_eq!(result, "dtv1.card//IM_GROUP.conv_123");
}

#[test]
fn build_open_space_id_user() {
    let result = build_open_space_id("user:staff_1");
    assert_eq!(result, "dtv1.card//IM_ROBOT.staff_1");
}

fn chat_ids_are_read_back() {
    let group = encode_chat_id(Some("2"), Some("user:odd"), "s");
    assert_eq!(decode_chat_id(&group), (true, "user:odd".to_string()));
    let private = encode_chat_id(Some("1"), None, "group:odd");
    assert_eq!(decode_chat_id(&private), (false, "group:odd".to_string()));
}

fn events_of_the_stream() {
    for (event, up) in [
        (StreamEvent::Frame(frame("SYSTEM", Some("p"), Some("ping"), None)), true),
        (StreamEvent::Unreadable, true),
        (StreamEvent::Ping, true),
        (StreamEvent::OtherMessage, true),
        (StreamEvent::Close, false),
        (StreamEvent::Ended, false),
        (StreamEvent::Shutdown, false),
        (StreamEvent::ReadError("x".into()), false),
    ] {
        let mut attempts = StreamAttempts::new();
        after_stream(&mut attempts, Outcome::Failed);
        note_event(&mut attempts, &event);
        let wait: u64 = if up { 2 } else { 4 };
        assert_eq!(after_stream(&mut attempts, Outcome::Failed), Next::Wait(wait));
    }
    assert!(matches!(step(&StreamEvent::Ping), StreamStep::Pong));
    assert!(matches!(step(&StreamEvent::Close), StreamStep::Finish));
    assert!(matches!(step(&StreamEvent::Ended), StreamStep::Fail(ChannelError::ConnectionFailed(_))));
    assert!(matches!(step(&StreamEvent::Shutdown), StreamStep::Finish));
    assert!(matches!(step(&StreamEvent::Unreadable), StreamStep::Handle(StreamWork::Nothing, None) | StreamStep::Nothing));
    assert!(matches!(step(&StreamEvent::ReadError("x".into())), StreamStep::Fail(ChannelError::ConnectionFailed(_))));
    match step(&StreamEvent::Frame(frame("SYSTEM", Some("p"), Some("ping"), None))) {
        StreamStep::Handle(StreamWork::Nothing, Some(ack)) => assert!(ack.contains("\"p\"")),
        other => panic!("{:?}", other),
    }
}

fn track_ids_differ() {
    assert_eq!(generate_out_track_id(123, 0), "aion_123_0");
    assert_ne!(generate_out_track_id(123, 0), generate_out_track_id(123, 1));
    assert_ne!(generate_guid(5, 1), generate_guid(5, 2));
}

fn cards_open_and_carry_their_fields() {
    let open = value_of(&open_card_fields());
    assert!(open.get("flowStatus").is_some());
    let fields = value_of(&put_card_fields(object(), "2", "text"));
    assert_eq!(fields["flowStatus"], "2");
    assert_eq!(fields["msgContent"], "text");
    assert!(serde_json::from_str::<serde_json::Value>(&field_order_text()).is_ok());
}

fn failed_cards_fall_back_to_a_message() {
    assert_eq!(after_reply(SendStage::Create, true), SendNext::Stage(SendStage::Deliver));
    assert_eq!(after_reply(SendStage::Deliver, true), SendNext::Stage(SendStage::Activate));
    assert_eq!(after_reply(SendStage::Create, false), SendNext::Stage(SendStage::Fallback));
    assert_eq!(after_reply(SendStage::Deliver, false), SendNext::Stage(SendStage::Fallback));
    assert_eq!(after_reply(SendStage::Fallback, true), SendNext::RobotSent);
    assert_eq!(after_reply(SendStage::Fallback, false), SendNext::GiveUp);
    assert_eq!(after_reply(SendStage::Activate, true), SendNext::CardSent);
}

fn card_actions_become_messages() {
    let cb = CardActionCallback {
        user_id: Some("u1".into()),
        open_conversation_id: Some("conv".into()),
        content: None,
    };
    let outcome = card_from_action(&cb, "system:session.new".into(), 7);
    assert!(outcome.confirm.is_none());
    assert_eq!(outcome.message.user.id, "u1");
    assert_eq!(outcome.message.action.unwrap().action, "session.new");
}

fn replies_of_dingtalk_are_read() {
    let ok = AccessTokenResponse {
        access_token: Some("at".into()),
        expire_in: Some(7200),
        errcode: None,
        errmsg: None,
    };
    let cache = token_of(ok, 9).unwrap();
    assert_eq!(cache.token, "at");
    assert_eq!(cache.expires_in, 7200);
    let bad = AccessTokenResponse {
        access_token: None,
        expire_in: None,
        errcode: Some(400100),
        errmsg: Some("invalid appkey".into()),
    };
    let err = token_of(bad, 9).unwrap_err().message();
    assert!(err.contains("invalid appkey"), "{}", err);
    assert!(check_created(Some(true)).is_ok());
    assert!(check_created(Some(false)).is_err());
    assert_eq!(robot_message_id(Some("k".into()), 5), "k");
    assert!(robot_message_id(None, 5).contains('5'));
    let info = RegisterStreamResponse { endpoint: "wss://e".into(), ticket: "t1".into() };
    assert_eq!(stream_url(&info), "wss://e?ticket=t1");
}

fn requests_name_their_receiver() {
    let api = DingtalkApi::new("robot", "s");
    let group = body_of(&api.send_robot_message("tok", "group:c1", "hi"));
    assert_eq!(group["robotCode"], "robot");
    assert_eq!(group["openConversationId"], "c1");
    let user = api.send_robot_message("tok", "user:u1", "hi");
    assert_eq!(body_of(&user)["userIds"][0], "u1");
    assert!(user.headers.contains(&("x-acs-dingtalk-access-token".to_string(), "tok".to_string())));
    let deliver = body_of(&api.deliver_card("tok", "track", "group:c1"));
    assert_eq!(deliver["openSpaceId"], "dtv1.card//IM_GROUP.c1");
    let update = api.update_card("tok", "track", object().text("a", "b"));
    assert_eq!(update.method, Method::Put);
    assert_eq!(body_of(&update)["outTrackId"], "track");
    assert_eq!(api.get_bot_info("tok").method, Method::Post);
}

fn credentials(id: Option<&str>, secret: Option<&str>) -> PluginCredentials {
    PluginCredentials {
        token: None,
        app_id: None,
        app_secret: None,
        encrypt_key: None,
        verification_token: None,
        client_id: id.map(|s| s.to_string()),
        client_secret: secret.map(|s| s.to_string()),
        account_id: None,
        bot_token: None,
        app_token: None,
        extra: TextMap::new(),
    }
}

fn the_plugin_sends_cards() {
    let mut plugin = DingtalkPlugin::new();
    assert!(plugin.initialize(&credentials(None, Some("s"))).is_err());
    assert!(plugin.initialize(&credentials(Some("k"), Some(""))).is_err());
    assert_eq!(plugin.state.status(), PluginStatus::Error);
    let api = plugin.initialize(&credentials(Some("k"), Some("s"))).unwrap();
    plugin.identified(api, RobotInfoResponse { nick: Some("Bot".into()), robot_user_id: None });
    assert_eq!(plugin.state.bot_info().unwrap().display_name, "Bot");
    plugin.start();
    assert_eq!(plugin.state.status(), PluginStatus::Running);
    let message: UnifiedOutgoingMessage = text_message("hi".to_string());
    assert_eq!(plugin.send_message(&message), Ok(SendStage::Create));
    let create = plugin.send_request(SendStage::Create, "tok", "track", "user:u", &message, 4000).unwrap();
    assert_eq!(body_of(&create)["outTrackId"], "track");
    let fallback = plugin.send_request(SendStage::Fallback, "tok", "track", "user:u", &message, 4000).unwrap();
    assert!(write_json(&fallback.body.unwrap()).contains("hi"));
    let edit = plugin.edit_message("tok", "track", &message, "g1", 4000).unwrap();
    assert_eq!(body_of(&edit)["guid"], "g1");
    assert!(plugin.finish_message("tok", "track", &message, 4000).unwrap().is_none());
    let mut done = text_message("hi".to_string());
    done.buttons = buttons("Ok");
    assert!(plugin.finish_message("tok", "track", &done, 4000).unwrap().is_some());
}

#[test]
fn streams_and_ids_are_exact() {
    chat_ids_are_read_back();
    events_of_the_stream();
    track_ids_differ();
    card_actions_become_messages();
}

#[test]
fn cards_are_sent() {
    cards_open_and_carry_their_fields();
    failed_cards_fall_back_to_a_message();
    the_plugin_sends_cards();
}

#[test]
fn dingtalk_is_asked_and_answers() {
    replies_of_dingtalk_are_read();
    requests_name_their_receiver();
}
