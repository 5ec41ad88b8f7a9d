//! Conversations, agent events and outgoing messages.
use std::time::Duration;

use aionui_channel::channel_settings::{AssistantSetting, ResolvedAgentConfig, ResolvedModelConfig};
use aionui_channel::error::ChannelError;
use aionui_channel::message_service::{
    after_send_step, channel_conversation_name, is_named_after_chat, missing_task_error, parse_agent_type,
    platform_to_source, AgentEvent, AgentStep, AgentType, ChannelMessageService, ConversationSource, SendNext, SendOutcome,
    SendStage, SendStep, StreamAction,
};
use aionui_channel::types::{AssistantSession, OutgoingMessageType, PluginType};

#[test]
fn platform_to_source_telegram() {
    assert_eq!(platform_to_source(PluginType::Telegram), ConversationSource::Telegram);
}

#[test]
fn platform_to_source_lark() {
    assert_eq!(platform_to_source(PluginType::Lark), ConversationSource::Lark);
}

#[test]
fn platform_to_source_dingtalk() {
    assert_eq!(platform_to_source(PluginType::Dingtalk), ConversationSource::Dingtalk);
}

#[test]
fn platform_to_source_weixin() {
    assert_eq!(platform_to_source(PluginType::Weixin), ConversationSource::Weixin);
}

#[test]
fn platform_to_source_reserved_defaults_to_aionui() {
    assert_eq!(platform_to_source(PluginType::Slack), ConversationSource::Aionui);
    assert_eq!(platform_to_source(PluginType::Discord), ConversationSource::Aionui);
}

#[test]
fn parse_known_agent_types() {
    assert_eq!(parse_agent_type("acp").unwrap(), AgentType::Acp);
    assert_eq!(parse_agent_type("aionrs").unwrap(), AgentType::Aionrs);
}

#[test]
fn antigravity_is_not_collapsed_into_acp() {
    // Falling through to the `_` arm would open the channel conversation as
    // `acp` and route agy into the ACP manager, which it does not speak.
    assert_eq!(parse_agent_type("antigravity").unwrap(), AgentType::Antigravity);
}

#[test]
fn parse_agent_type_rejects_deprecated_channel_runtime_types() {
    for raw in ["openclaw-gateway", "nanobot", "remote", "gemini"] {
        let err = parse_agent_type(raw).unwrap_err();
        assert!(matches!(err, ChannelError::InvalidConfig(_)));
    }
}

#[test]
fn parse_unknown_agent_type_defaults_to_acp() {
    assert_eq!(parse_agent_type("unknown").unwrap(), AgentType::Acp);
    assert_eq!(parse_agent_type("").unwrap(), AgentType::Acp);
}

#[test]
fn text_event_produces_append() {
    let event = AgentEvent::Text("Hello".into());
    let action = ChannelMessageService::process_stream_event(&event);
    match action {
        Some(StreamAction::AppendText(text)) => assert_eq!(text, "Hello"),
        _ => panic!("Expected AppendText"),
    }
}

#[test]
fn finish_event_produces_finish() {
    let event = AgentEvent::Finish;
    let action = ChannelMessageService::process_stream_event(&event);
    assert!(matches!(action, Some(StreamAction::Finish)));
}

#[test]
fn error_event_produces_error() {
    let event = AgentEvent::Error("timeout".into());
    let action = ChannelMessageService::process_stream_event(&event);
    match action {
        Some(StreamAction::Error(msg)) => assert_eq!(msg, "timeout"),
        _ => panic!("Expected Error"),
    }
}

#[test]
fn thinking_event_produces_thinking() {
    let event = AgentEvent::Thinking("Analyzing...".into());
    let action = ChannelMessageService::process_stream_event(&event);
    match action {
        Some(StreamAction::Thinking(text)) => assert_eq!(text, "Analyzing..."),
        _ => panic!("Expected Thinking"),
    }
}

#[test]
fn tool_call_event_produces_tool_call() {
    let event = AgentEvent::ToolCall { name: "read_file".into(), status: "Running".into() };
    let action = ChannelMessageService::process_stream_event(&event);
    match action {
        Some(StreamAction::ToolCall { name, status }) => {
            assert_eq!(name, "read_file");
            assert_eq!(status, "Running");
        }
        _ => panic!("Expected ToolCall"),
    }
}

#[test]
fn start_event_produces_none() {
    let event = AgentEvent::Internal;
    assert!(ChannelMessageService::process_stream_event(&event).is_none());
}

#[test]
fn thinking_message_has_text() {
    let msg = ChannelMessageService::build_thinking_message();
    assert_eq!(msg.message_type, OutgoingMessageType::Text);
    let text = msg.text.unwrap();
    assert!(text.contains("Thinking"));
}

#[test]
fn final_message_has_buttons() {
    let msg = ChannelMessageService::build_final_message("Response text");
    assert_eq!(msg.message_type, OutgoingMessageType::Buttons);
    assert_eq!(msg.text.as_deref(), Some("Response text"));
    let buttons = msg.buttons.unwrap();
    assert!(!buttons.is_empty());
    assert!(buttons[0].len() >= 2);
}

#[test]
fn streaming_message_is_plain_text() {
    let msg = ChannelMessageService::build_streaming_message("partial...");
    assert_eq!(msg.message_type, OutgoingMessageType::Text);
    assert_eq!(msg.text.as_deref(), Some("partial..."));
    assert!(msg.buttons.is_none());
}

#[test]
fn throttle_interval_is_500ms() {
    assert_eq!(
        Duration::from_millis(ChannelMessageService::throttle_interval()),
        std::time::Duration::from_millis(500)
    );
}

#[test]
fn confirm_timeout_is_15s() {
    assert_eq!(
        Duration::from_millis(ChannelMessageService::confirm_timeout()),
        std::time::Duration::from_secs(15)
    );
}

#[test]
fn yolo_extra_contains_session_mode() {
    let extra = ChannelMessageService::build_channel_extra(None);
    assert_eq!(extra.session_mode, "yolo");
    assert!(extra.backend.is_none());
}

fn channel_extra_keeps_the_backend() {
    let extra = ChannelMessageService::build_channel_extra(Some("qwen"));
    assert_eq!(extra.session_mode, "yolo");
    assert_eq!(extra.backend.as_deref(), Some("qwen"));
}

fn session(conversation_id: Option<&str>) -> AssistantSession {
    AssistantSession {
        id: "s1".into(),
        user_id: "u1".into(),
        agent_type: "acp".into(),
        conversation_id: conversation_id.map(|s| s.to_string()),
        chat_id: Some("70880480".into()),
        created_at: 1,
        last_activity: 2,
    }
}

fn agent(agent_type: &str, backend: Option<&str>) -> ResolvedAgentConfig {
    ResolvedAgentConfig { agent_type: agent_type.into(), backend: backend.map(|s| s.to_string()) }
}

fn model_of_an_acp_agent_goes_into_extra() {
    let model = ResolvedModelConfig {
        provider_id: "prov1".into(),
        model: "qwen-max".into(),
        use_model: Some("global.vendor.qwen-max".into()),
    };
    let request = ChannelMessageService::create_conversation_for_session(
        PluginType::Telegram,
        &agent("acp", Some("codex")),
        None,
        Some(&model),
        &session(None),
    )
    .unwrap();

    assert!(request.model.is_none(), "acp must not have top-level model");
    let inner = request.extra.model.unwrap();
    assert_eq!(inner.provider_id, "prov1");
    assert_eq!(inner.use_model.as_deref(), Some("global.vendor.qwen-max"));
}

#[test]
fn aionrs_model_stays_at_top_level() {
    let model = ResolvedModelConfig { provider_id: "prov2".into(), model: "gpt-4o".into(), use_model: None };
    let request = ChannelMessageService::create_conversation_for_session(
        PluginType::Telegram,
        &agent("aionrs", None),
        None,
        Some(&model),
        &session(None),
    )
    .unwrap();

    assert!(request.model.is_some(), "aionrs must use top-level model");
    assert!(request.extra.model.is_none());
}

fn conv_name_names_the_backend() {
    let name = channel_conversation_name(PluginType::Telegram, "acp", Some("qwen"), Some("70880480"));
    assert_eq!(name, "tg-acp-qwen-70880480");
}

#[test]
fn conv_name_telegram_aionrs() {
    let name = channel_conversation_name(PluginType::Telegram, "aionrs", None, Some("70880480"));
    assert_eq!(name, "tg-aionrs-70880480");
}

#[test]
fn conv_name_lark_acp_no_backend() {
    let name = channel_conversation_name(PluginType::Lark, "acp", None, Some("abcdef12"));
    assert_eq!(name, "lark-acp-abcdef12");
}

#[test]
fn conv_name_dingtalk_truncates_long_chat_id() {
    let name = channel_conversation_name(PluginType::Dingtalk, "acp", Some("vertex"), Some("123456789abcdef"));
    assert_eq!(name, "ding-acp-vertex-12345678");
}

#[test]
fn conv_name_weixin_no_chat_id() {
    let name = channel_conversation_name(PluginType::Weixin, "acp", Some("gemini"), None);
    assert_eq!(name, "wx-acp-gemini");
}

fn conv_name_without_acp_has_no_backend() {
    let name = channel_conversation_name(PluginType::Telegram, "aionrs", Some("qwen"), Some("70880480"));
    assert_eq!(name, "tg-aionrs-70880480");
}

fn conversations_are_asked_for_by_agent_or_by_assistant() {
    let by_agent = ChannelMessageService::create_conversation_for_session(
        PluginType::Telegram,
        &agent("acp", Some("qwen")),
        None,
        None,
        &session(None),
    )
    .unwrap();
    assert_eq!(by_agent.agent_type, Some(AgentType::Acp));
    assert!(by_agent.assistant_id.is_none());
    assert_eq!(by_agent.name, "tg-acp-qwen-70880480");
    assert_eq!(by_agent.source, ConversationSource::Telegram);
    assert_eq!(by_agent.channel_chat_id.as_deref(), Some("70880480"));
    assert_eq!(by_agent.extra.session_mode, "yolo");

    let setting = AssistantSetting {
        assistant_id: Some("a1".into()),
        custom_agent_id: None,
        backend: None,
        agent_type: None,
        name: None,
    };
    let by_assistant = ChannelMessageService::create_conversation_for_session(
        PluginType::Telegram,
        &agent("acp", Some("qwen")),
        Some(&setting),
        None,
        &session(None),
    )
    .unwrap();
    assert!(by_assistant.agent_type.is_none());
    assert_eq!(by_assistant.assistant_id.as_deref(), Some("a1"));

    let refused = ChannelMessageService::create_conversation_for_session(
        PluginType::Telegram,
        &agent("nanobot", None),
        None,
        None,
        &session(None),
    );
    assert!(matches!(refused, Err(ChannelError::InvalidConfig(_))));
}

fn a_text_reaches_its_agent_step_by_step() {
    let new = session(None);
    let old = session(Some("c1"));
    let send = ChannelMessageService::send_to_agent;
    assert_eq!(send(&new, "hi", &SendStage::Start), SendStep::CreateConversation);
    assert_eq!(send(&old, "hi", &SendStage::Start), SendStep::Agent(AgentStep::Warmup("c1".into())));
    assert_eq!(
        send(&new, "hi", &SendStage::Conversation("c2".into())),
        SendStep::Agent(AgentStep::Warmup("c2".into()))
    );
    assert_eq!(send(&new, "hi", &SendStage::Warm("c2".into())), SendStep::Agent(AgentStep::Subscribe("c2".into())));
    assert_eq!(
        send(&new, "hi", &SendStage::Subscribed("c2".into())),
        SendStep::Agent(AgentStep::Send { conversation_id: "c2".into(), content: "hi".into() })
    );
    assert_eq!(
        missing_task_error("c2"),
        ChannelError::MessageSendFailed("Agent task missing after warmup for conversation c2".into())
    );
}

fn events_are_received_before_the_text_is_sent() {
    let new = session(None);
    let mut stage = SendStage::Start;
    let mut taken = Vec::new();
    let sent = loop {
        let outcome = match ChannelMessageService::send_to_agent(&new, "hi", &stage) {
            SendStep::CreateConversation => {
                taken.push("create");
                SendOutcome::Created(Ok("c2".into()))
            }
            SendStep::Agent(step) => {
                taken.push(match &step {
                    AgentStep::Warmup(_) => "warmup",
                    AgentStep::Subscribe(_) => "subscribe",
                    AgentStep::Send { .. } => "send",
                });
                SendOutcome::Agent(step, Ok(()))
            }
        };
        match after_send_step(outcome) {
            SendNext::Stage(next) => stage = next,
            end => break end,
        }
    };
    assert_eq!(sent, SendNext::Sent("c2".into()));
    assert_eq!(taken, vec!["create", "warmup", "subscribe", "send"]);
    let failed = |step: AgentStep| after_send_step(SendOutcome::Agent(step, Err("why".into())));
    let send_failed = SendNext::Failed(ChannelError::MessageSendFailed("why".into()));
    assert_eq!(failed(AgentStep::Warmup("c".into())), send_failed);
    assert_eq!(failed(AgentStep::Send { conversation_id: "c".into(), content: "hi".into() }), send_failed);
    assert_eq!(failed(AgentStep::Subscribe("c".into())), SendNext::Failed(missing_task_error("c")));
    let refused = ChannelError::InvalidConfig("x".into());
    assert_eq!(
        after_send_step(SendOutcome::Created(Err(ChannelError::InvalidConfig("x".into())))),
        SendNext::Failed(refused)
    );
}

fn an_assistant_names_its_conversations() {
    let mut setting = AssistantSetting {
        assistant_id: Some("a1".into()),
        custom_agent_id: None,
        backend: None,
        agent_type: None,
        name: Some("  My bot ".into()),
    };
    let acp = agent("acp", Some("qwen"));
    assert!(!is_named_after_chat(&acp, Some(&setting)));
    // The eighth byte of this id lies within a character.
    let mut odd = session(None);
    odd.chat_id = Some("1234567\u{e9}".into());
    let request = ChannelMessageService::create_conversation_for_session(
        PluginType::Telegram,
        &acp,
        Some(&setting),
        None,
        &odd,
    )
    .unwrap();
    assert_eq!(request.name, "My bot");
    assert_eq!(request.channel_chat_id.as_deref(), Some("1234567\u{e9}"));
    setting.name = Some("   ".into());
    assert!(is_named_after_chat(&acp, Some(&setting)));
    assert!(is_named_after_chat(&acp, None));
    assert!(!is_named_after_chat(&agent("nanobot", None), None));
}

fn deprecated_runtimes_are_known() {
    assert!(AgentType::Nanobot.is_deprecated_runtime());
    assert!(AgentType::Gemini.is_deprecated_runtime());
    assert!(!AgentType::Acp.is_deprecated_runtime());
    assert!(!AgentType::Aionrs.is_deprecated_runtime());
}

#[test]
fn conversations_are_named() {
    channel_extra_keeps_the_backend();
    conv_name_names_the_backend();
    conv_name_without_acp_has_no_backend();
}

#[test]
fn conversations_are_opened() {
    model_of_an_acp_agent_goes_into_extra();
    conversations_are_asked_for_by_agent_or_by_assistant();
    an_assistant_names_its_conversations();
    a_text_reaches_its_agent_step_by_step();
    events_are_received_before_the_text_is_sent();
    deprecated_runtimes_are_known();
}
