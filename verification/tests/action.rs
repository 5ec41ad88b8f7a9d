//! Actions, replies and the way of a message to its answer.
use aionui_channel::action::{
    build_authorization_response, build_help_response, build_pairing_response, build_unknown_action_response,
    handle_chat_action, handle_platform_action, handle_system_action, handle_unauthorized, route_action, session_ready,
    ActionExecutor, ActionStep, MessageResult, SessionPurpose,
};
use aionui_channel::error::ChannelError;
use aionui_channel::orchestrator::{
    failure_message, ChannelOrchestrator, Delivery, DispatchEvent, DispatchStep, Routing,
};
use aionui_channel::types::{
    text_message, ActionBehavior, ActionCategory, ActionContext, ActionResponse, AssistantSession, MessageContentType,
    OutgoingMessageType, ParseMode, PluginType, UnifiedAction, UnifiedIncomingMessage, UnifiedMessageContent,
    UnifiedUser,
};

fn action(name: &str, category: ActionCategory) -> UnifiedAction {
    UnifiedAction {
        action: name.into(),
        category,
        params: None,
        context: ActionContext {
            platform: PluginType::Telegram,
            user_id: "tg_42".into(),
            chat_id: "chat_1".into(),
            message_id: None,
            session_id: None,
        },
    }
}

fn message(owner: Option<&str>, act: Option<UnifiedAction>) -> UnifiedIncomingMessage {
    UnifiedIncomingMessage {
        owner_user_id: owner.map(|s| s.to_string()),
        id: "msg_1".into(),
        platform: PluginType::Telegram,
        chat_id: "chat_1".into(),
        user: UnifiedUser { id: "tg_42".into(), username: None, display_name: "Test".into(), avatar_url: None },
        content: UnifiedMessageContent {
            content_type: MessageContentType::Text,
            text: "Hello".into(),
            attachments: None,
        },
        timestamp: 1,
        reply_to_message_id: None,
        action: act,
    }
}

fn session() -> AssistantSession {
    AssistantSession {
        id: "0123456789abcdef".into(),
        user_id: "user_1".into(),
        agent_type: "aionrs".into(),
        conversation_id: Some("conv_1".into()),
        chat_id: Some("chat_1".into()),
        created_at: 1000,
        last_activity: -2000,
    }
}

fn reply_text(step: ActionStep) -> String {
    match step {
        ActionStep::Respond(r) => r.text.unwrap(),
        other => panic!("expected a reply, got {:?}", other),
    }
}

#[test]
fn pairing_response_contains_code() {
    let resp = build_pairing_response("123456");
    let text = resp.text.unwrap();
    assert!(text.contains("123456"));
    assert!(text.contains("pairing code"));
    assert_eq!(resp.behavior, ActionBehavior::Send);
    assert!(resp.buttons.is_some());
}

#[test]
fn help_response_has_buttons() {
    let resp = build_help_response();
    assert!(resp.text.is_some());
    let buttons = resp.buttons.unwrap();
    assert!(!buttons.is_empty());
}

#[test]
fn unknown_action_response_includes_name() {
    let resp = build_unknown_action_response("foo.bar");
    let text = resp.text.unwrap();
    assert!(text.contains("foo.bar"));
}

fn pairing_response_is_exact() {
    let resp = build_pairing_response("123456");
    assert_eq!(
        resp.text.as_deref(),
        Some(
            "Welcome! To use this bot, you need authorization.\n\nYour pairing code: *123456*\n\nShare this code with \
             the admin, who can approve it in Settings → Channel → Pairing Requests.\nThe code expires in 10 minutes."
        )
    );
    let rows = resp.buttons.unwrap();
    assert_eq!(rows.len(), 1);
    let names: Vec<&str> = rows[0].iter().map(|b| b.action.as_str()).collect();
    assert_eq!(names, vec!["pairing.refresh", "pairing.check", "pairing.help"]);
}

fn help_menu_does_not_choose_agents() {
    let rows = build_help_response().buttons.unwrap();
    assert_eq!(rows.len(), 2);
    assert!(!rows.iter().flatten().any(|b| b.action == "agent.show"));
}

fn authorization_is_reported() {
    assert!(build_authorization_response(true).text.unwrap().contains("authorized"));
    assert!(build_authorization_response(true).buttons.is_none());
    let waiting = build_authorization_response(false);
    assert!(waiting.text.unwrap().contains("Still waiting"));
    assert_eq!(waiting.buttons.unwrap()[0][1].action, "pairing.check");
}

fn strangers_only_pair() {
    let executor = ActionExecutor::new(Some("owner".into()));
    assert_eq!(executor.owner_user_id(), Some("owner"));
    for act in [None, Some(action("session.new", ActionCategory::System))] {
        let msg = message(None, act);
        match executor.handle_incoming_message("owner", &msg, None) {
            ActionStep::RequestPairing { owner_user_id, platform_user_id, platform_type, display_name } => {
                assert_eq!(owner_user_id, "owner");
                assert_eq!(platform_user_id, "tg_42");
                assert_eq!(platform_type, PluginType::Telegram);
                assert_eq!(display_name.as_deref(), Some("Test"));
            },
            other => panic!("a stranger got {:?}", other),
        }
    }
    assert!(matches!(
        handle_unauthorized("owner", "tg_42", PluginType::Telegram, "Test"),
        ActionStep::RequestPairing { .. }
    ));
}

fn users_reach_their_session() {
    let executor = ActionExecutor::new(None);
    match executor.handle_incoming_message("owner", &message(None, None), Some("user_1")) {
        ActionStep::OpenSession { owner_user_id, user_id, chat_id, platform, purpose } => {
            assert_eq!(owner_user_id, "owner");
            assert_eq!(user_id, "user_1");
            assert_eq!(chat_id, "chat_1");
            assert_eq!(platform, PluginType::Telegram);
            assert_eq!(purpose, SessionPurpose::Dispatch);
            assert!(!purpose.starts_afresh());
        },
        other => panic!("a user got {:?}", other),
    }
}

fn owner_of_a_message_comes_first() {
    let with = ActionExecutor::new(Some("default".into()));
    let without = ActionExecutor::new(None);
    assert_eq!(with.message_owner(&message(Some("own"), None)), Ok("own".to_string()));
    assert_eq!(with.message_owner(&message(None, None)), Ok("default".to_string()));
    let err = without.message_owner(&message(None, None)).unwrap_err();
    assert!(matches!(err, ChannelError::InvalidConfig(_)));
    assert!(err.message().contains("owner user"));
}

fn platform_actions_are_routed() {
    let p = ActionCategory::Platform;
    for name in ["pairing.show", "pairing.refresh"] {
        match handle_platform_action("owner", &action(name, p)) {
            ActionStep::RequestPairing { display_name, platform_user_id, .. } => {
                assert!(display_name.is_none());
                assert_eq!(platform_user_id, "tg_42");
            },
            other => panic!("{} gave {:?}", name, other),
        }
    }
    assert!(matches!(
        handle_platform_action("owner", &action("pairing.check", p)),
        ActionStep::CheckAuthorized { .. }
    ));
    assert!(reply_text(handle_platform_action("owner", &action("pairing.help", p))).contains("authorization"));
    assert_eq!(
        reply_text(route_action("owner", &action("unknown.action", p), "user_1")),
        "Unknown action: unknown.action"
    );
}

fn system_actions_are_routed() {
    let s = ActionCategory::System;
    let purposes = [("session.new", SessionPurpose::New), ("session.status", SessionPurpose::Status)];
    for (name, wanted) in purposes {
        match route_action("owner", &action(name, s), "user_1") {
            ActionStep::OpenSession { purpose, user_id, .. } => {
                assert_eq!(purpose, wanted);
                assert_eq!(purpose.starts_afresh(), name == "session.new");
                assert_eq!(user_id, "user_1");
            },
            other => panic!("{} gave {:?}", name, other),
        }
    }
    assert!(reply_text(handle_system_action("owner", &action("help.show", s), "u")).contains("How can I help?"));
    assert!(reply_text(handle_system_action("owner", &action("help.features", s), "u")).starts_with("Features:"));
    assert!(reply_text(handle_system_action("owner", &action("help.pairing", s), "u")).starts_with("Pairing:"));
    assert!(reply_text(handle_system_action("owner", &action("help.tips", s), "u")).starts_with("Tips:"));
    assert!(reply_text(handle_system_action("owner", &action("settings.show", s), "u")).contains("desktop app"));
    for name in ["agent.show", "agent.select"] {
        let text = reply_text(route_action("owner", &action(name, s), "u"));
        assert_eq!(text, format!("Unknown action: {}", name));
    }
}

fn chat_actions_are_answered() {
    let c = ActionCategory::Chat;
    let confirm = handle_chat_action(&action("system.confirm", c));
    assert_eq!(confirm.behavior, ActionBehavior::Answer);
    assert_eq!(confirm.toast.as_deref(), Some("Confirmed"));
    let copy = handle_chat_action(&action("action.copy", c));
    assert_eq!(copy.behavior, ActionBehavior::Answer);
    assert_eq!(copy.toast.as_deref(), Some("Copied to clipboard"));
    for name in ["chat.send", "chat.regenerate", "chat.continue"] {
        let r = handle_chat_action(&action(name, c));
        assert_eq!(r.behavior, ActionBehavior::Send);
        assert_eq!(r.toast.as_deref(), Some("Processing..."));
        assert!(r.text.is_none());
    }
    assert_eq!(handle_chat_action(&action("x", c)).text.as_deref(), Some("Unknown action: x"));
}

fn session_reports_are_exact() {
    match session_ready(SessionPurpose::Dispatch, "owner", &session()) {
        MessageResult::Dispatched { owner_user_id, session_id, conversation_id } => {
            assert_eq!(owner_user_id, "owner");
            assert_eq!(session_id, "0123456789abcdef");
            assert_eq!(conversation_id.as_deref(), Some("conv_1"));
        },
        other => panic!("{:?}", other),
    }
    match session_ready(SessionPurpose::New, "owner", &session()) {
        MessageResult::Action(r) => {
            assert_eq!(r.text.as_deref(), Some("New session created.\nAgent: aionrs\nSession: 01234567"));
            assert_eq!(r.buttons.unwrap()[0][0].action, "help.show");
        },
        other => panic!("{:?}", other),
    }
    match session_ready(SessionPurpose::Status, "owner", &session()) {
        MessageResult::Action(r) => {
            assert_eq!(
                r.text.as_deref(),
                Some("Session: 01234567\nAgent: aionrs\nCreated: 1000\nLast active: -2000")
            );
            assert_eq!(r.buttons.unwrap()[0][0].action, "session.new");
        },
        other => panic!("{:?}", other),
    }
}

fn response(text: Option<&str>, behavior: ActionBehavior, edit: Option<&str>) -> ActionResponse {
    ActionResponse {
        text: text.map(|s| s.to_string()),
        parse_mode: Some(ParseMode::Markdown),
        buttons: None,
        keyboard: None,
        behavior,
        toast: Some("toast".into()),
        edit_message_id: edit.map(|s| s.to_string()),
    }
}

fn responses_become_messages() {
    match ChannelOrchestrator::send_action_response(&response(Some("hi"), ActionBehavior::Send, None)) {
        Delivery::Send(m) => {
            assert_eq!(m.message_type, OutgoingMessageType::Text);
            assert_eq!(m.text.as_deref(), Some("hi"));
            assert_eq!(m.parse_mode, Some(ParseMode::Markdown));
        },
        other => panic!("{:?}", other),
    }
    match ChannelOrchestrator::send_action_response(&response(Some("hi"), ActionBehavior::Edit, Some("m1"))) {
        Delivery::Edit { message_id, message } => {
            assert_eq!(message_id, "m1");
            assert_eq!(message.text.as_deref(), Some("hi"));
        },
        other => panic!("{:?}", other),
    }
    assert!(matches!(
        ChannelOrchestrator::send_action_response(&response(Some("hi"), ActionBehavior::Edit, None)),
        Delivery::Nothing
    ));
    assert!(matches!(
        ChannelOrchestrator::send_action_response(&response(None, ActionBehavior::Send, None)),
        Delivery::Nothing
    ));
}

fn outcomes_are_routed_to_their_owner() {
    let dispatched = MessageResult::Dispatched {
        owner_user_id: "o1".into(),
        session_id: "s1".into(),
        conversation_id: None,
    };
    match ChannelOrchestrator::handle_message(&Some("o2".into()), None, Ok(dispatched)) {
        Routing::Dispatch { owner_user_id, session_id, conversation_id } => {
            assert_eq!(owner_user_id, "o1");
            assert_eq!(session_id, "s1");
            assert!(conversation_id.is_none());
        },
        other => panic!("{:?}", other),
    }
    let reply = || MessageResult::Action(response(Some("hi"), ActionBehavior::Send, None));
    match ChannelOrchestrator::handle_message(&Some("o2".into()), Some("o3"), Ok(reply())) {
        Routing::Deliver { owner_user_id, delivery: Delivery::Send(m) } => {
            assert_eq!(owner_user_id, "o2");
            assert_eq!(m.text.as_deref(), Some("hi"));
        },
        other => panic!("{:?}", other),
    }
    match ChannelOrchestrator::handle_message(&None, Some("o3"), Ok(reply())) {
        Routing::Deliver { owner_user_id, .. } => assert_eq!(owner_user_id, "o3"),
        other => panic!("{:?}", other),
    }
    assert!(matches!(
        ChannelOrchestrator::handle_message(&Some("o".into()), None, Ok(MessageResult::AlreadyProcessing)),
        Routing::Nothing
    ));
}

fn a_dispatched_message_goes_its_way() {
    let found = ChannelOrchestrator::handle_dispatched(false, &DispatchEvent::Session { found: true });
    assert!(matches!(found, DispatchStep::SendToAgent));
    let sent = DispatchEvent::Sent { conversation_id: "c1".into(), streaming: true };
    match ChannelOrchestrator::handle_dispatched(false, &sent) {
        DispatchStep::Bind { conversation_id, streaming } => {
            assert_eq!(conversation_id, "c1");
            assert!(streaming);
        },
        other => panic!("{:?}", other),
    }
    assert!(matches!(ChannelOrchestrator::handle_dispatched(true, &sent), DispatchStep::Relay));
    let bound = DispatchEvent::Bound { streaming: false };
    assert!(matches!(ChannelOrchestrator::handle_dispatched(false, &bound), DispatchStep::Done));
    let failed = DispatchEvent::Failed(ChannelError::PluginNotFound("tg".into()));
    match ChannelOrchestrator::handle_dispatched(false, &failed) {
        DispatchStep::Report(m) => assert!(m.text.unwrap().contains("Plugin not found: tg")),
        other => panic!("{:?}", other),
    }
}

fn failures_are_told() {
    let m = failure_message(&ChannelError::PlatformApi("down".into()));
    let expected = text_message(m.text.clone().unwrap());
    assert_eq!(m.message_type, expected.message_type);
    assert!(m.text.unwrap().contains("down"));
}

#[test]
fn display_messages() {
    assert_eq!(ChannelError::PluginNotFound("tg".into()).message(), "Plugin not found: tg");
    assert_eq!(ChannelError::PairingExpired("123456".into()).message(), "Pairing code expired: 123456");
    assert_eq!(ChannelError::InvalidConfig("bad".into()).message(), "Invalid plugin configuration: bad");
}

#[test]
fn replies_are_exact() {
    pairing_response_is_exact();
    help_menu_does_not_choose_agents();
    authorization_is_reported();
    session_reports_are_exact();
}

#[test]
fn messages_take_their_way() {
    strangers_only_pair();
    users_reach_their_session();
    owner_of_a_message_comes_first();
}

#[test]
fn actions_are_routed() {
    platform_actions_are_routed();
    system_actions_are_routed();
    chat_actions_are_answered();
}

#[test]
fn outcomes_are_delivered() {
    responses_become_messages();
    outcomes_are_routed_to_their_owner();
    a_dispatched_message_goes_its_way();
    failures_are_told();
}
