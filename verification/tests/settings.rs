//! Which agent and which model answer on a platform.
use aionui_channel::channel_settings::{
    agent_config_for_backend, agent_key, agent_type_carries_backend, assistant_agent, assistant_setting_of,
    backend_to_agent_type, default_agent_config, effective_agent_id, explicit_assistant_id, find_assistant,
    legacy_backend, model_config_from_parts, model_key, model_setting_of, normalize_channel_assistant_setting_for_write,
    parse_channel_assistant_setting, parse_channel_model_setting, plan_agent, resolved_model_to_provider,
    runtime_backend, AgentPlan, AssistantDefinition, AssistantOverlay, AssistantSetting, ChannelSettingsService,
    DefaultModelSetting, ResolvedAgentConfig, ResolvedModelConfig,
};
use aionui_channel::error::ChannelError;
use aionui_channel::json::JsonNode;
use aionui_channel::types::PluginType;

#[test]
fn acp_backends_map_to_acp() {
    for backend in &[
        "gemini",
        "codex",
        "codebuddy",
        "opencode",
        "qwen",
        "copilot",
        "droid",
        "kimi",
    ] {
        assert_eq!(backend_to_agent_type(backend), "acp", "backend: {backend}");
    }
}

#[test]
fn aionrs_backends_map_to_aionrs() {
    assert_eq!(backend_to_agent_type("aionrs"), "aionrs");
    assert_eq!(backend_to_agent_type("aion-cli"), "aionrs");
}

#[test]
fn non_acp_backends_map_correctly() {
    assert_eq!(backend_to_agent_type("openclaw-gateway"), "openclaw-gateway");
    assert_eq!(backend_to_agent_type("nanobot"), "nanobot");
    assert_eq!(backend_to_agent_type("remote"), "remote");
}

#[test]
fn unknown_backend_defaults_to_acp() {
    assert_eq!(backend_to_agent_type("unknown"), "acp");
}

#[test]
fn antigravity_is_not_swept_into_the_acp_catch_all() {
    assert_eq!(backend_to_agent_type("antigravity"), "antigravity");
}

#[test]
fn the_backend_survives_for_every_type_that_resolves_a_catalog_row_by_it() {
    // Dropping it is not cosmetic: conversation creation then fails with
    // "requires either agent_id or backend in extra".
    assert!(agent_type_carries_backend("acp"));
    assert!(agent_type_carries_backend("antigravity"));
    assert!(!agent_type_carries_backend("aionrs"));
    assert!(!agent_type_carries_backend("nanobot"));
}

#[test]
fn resolved_model_converts_to_provider() {
    let model = ResolvedModelConfig {
        provider_id: "abc".into(),
        model: "gpt-5".into(),
        use_model: Some("gpt-5".into()),
    };
    let p = resolved_model_to_provider(Some(&model));
    assert_eq!(p.provider_id, "abc");
    assert_eq!(p.model, "gpt-5");
    assert_eq!(p.use_model.as_deref(), Some("gpt-5"));
}

#[test]
fn none_model_produces_empty_provider() {
    let p = resolved_model_to_provider(None);
    assert!(p.provider_id.is_empty());
    assert!(p.model.is_empty());
    assert!(p.use_model.is_none());
}

fn setting(
    assistant_id: Option<&str>,
    custom_agent_id: Option<&str>,
    backend: Option<&str>,
    agent_type: Option<&str>,
    name: Option<&str>,
) -> AssistantSetting {
    AssistantSetting {
        assistant_id: assistant_id.map(|s| s.to_string()),
        custom_agent_id: custom_agent_id.map(|s| s.to_string()),
        backend: backend.map(|s| s.to_string()),
        agent_type: agent_type.map(|s| s.to_string()),
        name: name.map(|s| s.to_string()),
    }
}

fn definition(id: &str, assistant: &str, source: &str, agent: &str) -> AssistantDefinition {
    AssistantDefinition {
        id: id.into(),
        assistant_id: assistant.into(),
        source: source.into(),
        agent_id: agent.into(),
    }
}

fn ready(agent_type: &str, backend: Option<&str>) -> AgentPlan {
    AgentPlan::Ready(ResolvedAgentConfig {
        agent_type: agent_type.into(),
        backend: backend.map(|s| s.to_string()),
    })
}

fn keys_name_the_platform() {
    assert_eq!(agent_key(PluginType::Telegram), "assistant.telegram.agent");
    assert_eq!(model_key(PluginType::Lark), "assistant.lark.defaultModel");
}

fn backend_and_agent_type_go_together() {
    let acp = agent_config_for_backend("qwen");
    assert_eq!(acp.agent_type, "acp");
    assert_eq!(acp.backend.as_deref(), Some("qwen"));
    let own = agent_config_for_backend("aion-cli");
    assert_eq!(own.agent_type, "aionrs");
    assert!(own.backend.is_none());
    assert_eq!(default_agent_config(), ResolvedAgentConfig { agent_type: "aionrs".into(), backend: None });
}

fn stored_settings_are_read() {
    let full = parse_channel_assistant_setting(r#"{"assistant_id":"a1","name":"Bot","extra":5}"#).unwrap();
    assert_eq!(full, setting(Some("a1"), None, None, None, Some("Bot")));
    let older = parse_channel_assistant_setting(r#"{"customAgentId":"c","custom_agent_id":"c1","backend":"qwen"}"#);
    assert_eq!(older.unwrap().backend.as_deref(), Some("qwen"));
    assert!(parse_channel_assistant_setting("not json").is_none());
    assert_eq!(
        parse_channel_assistant_setting("\"codex\"").unwrap(),
        setting(None, None, Some("codex"), Some("acp"), None)
    );
    assert_eq!(
        assistant_setting_of(Some(JsonNode::Object(vec![])), Some("a".into()), None, None, None, None),
        Some(setting(Some("a"), None, None, None, None))
    );
    assert!(assistant_setting_of(None, Some("a".into()), None, None, None, None).is_none());
}

fn stored_models_are_read() {
    let m = parse_channel_model_setting(r#"{"id":"p1","use_model":"gpt-5"}"#).unwrap();
    assert_eq!(m, DefaultModelSetting { id: "p1".into(), use_model: "gpt-5".into() });
    assert!(parse_channel_model_setting(r#"{"id":"p1"}"#).is_none());
    assert!(model_setting_of(None, Some("m".into())).is_none());
    let config = ChannelSettingsService::get_model_config(Some(r#"{"id":"p1","use_model":"gpt-5"}"#)).unwrap();
    assert_eq!(config.provider_id, "p1");
    assert_eq!(config.model, "gpt-5");
    assert_eq!(config.use_model.as_deref(), Some("gpt-5"));
    assert!(ChannelSettingsService::get_model_config(None).is_none());
    assert!(model_config_from_parts(None, None).is_none());
    let only_id = model_config_from_parts(Some("p1".into()), None).unwrap();
    assert_eq!(only_id.provider_id, "p1");
    assert_eq!(only_id.model, "");
}

fn plans_follow_the_setting() {
    assert_eq!(ChannelSettingsService::get_agent_config(None), ready("aionrs", None));
    assert_eq!(ChannelSettingsService::get_agent_config(Some("[]")), ready("aionrs", None));
    assert_eq!(
        ChannelSettingsService::get_agent_config(Some(r#"{"assistant_id":"a1"}"#)),
        AgentPlan::ResolveAssistant("a1".into())
    );
    assert_eq!(
        plan_agent(Some(&setting(None, None, Some("qwen"), Some("acp"), None))),
        ready("acp", Some("qwen"))
    );
    assert_eq!(
        plan_agent(Some(&setting(None, None, Some("x"), Some("aionrs"), None))),
        ready("aionrs", None)
    );
    assert_eq!(plan_agent(Some(&setting(None, None, Some("codex"), None, None))), ready("acp", Some("codex")));
}

fn unresolved_assistants_are_an_error() {
    let config = ResolvedAgentConfig { agent_type: "acp".into(), backend: Some("qwen".into()) };
    assert!(assistant_agent("a1", Some(config)).is_ok());
    assert_eq!(
        assistant_agent("a1", None),
        Err(ChannelError::InvalidConfig(
            "Channel assistant binding references unresolved assistant identity: a1".into()
        ))
    );
}

fn overlays_replace_agents() {
    let d = definition("d1", "a1", "generated", "agent-1");
    let overlay = |id: &str, with: Option<&str>| AssistantOverlay {
        assistant_definition_id: id.into(),
        agent_id_override: with.map(|s| s.to_string()),
    };
    assert_eq!(effective_agent_id(&d, &vec![]), "agent-1");
    assert_eq!(effective_agent_id(&d, &vec![overlay("d2", Some("x")), overlay("d1", Some("y"))]), "y");
    assert_eq!(effective_agent_id(&d, &vec![overlay("d1", None), overlay("d1", Some("y"))]), "agent-1");
    assert_eq!(runtime_backend("agent-1", None), "agent-1");
    assert_eq!(runtime_backend("agent-1", Some("qwen")), "qwen");
}

fn generated_assistants_answer_first() {
    let defs = vec![
        definition("d1", "custom", "user", "aionrs"),
        definition("d2", "gen-qwen", "generated", "qwen"),
        definition("d3", "gen-own", "generated", "aionrs"),
    ];
    let backends: Vec<String> = vec!["aionrs".into(), "qwen".into(), "aionrs".into()];
    assert_eq!(
        ChannelSettingsService::resolve_default_assistant_identity(&defs, &backends).as_deref(),
        Some("gen-own")
    );
    assert_eq!(find_assistant(&defs, &backends, false, "aionrs").as_deref(), Some("custom"));
    assert_eq!(find_assistant(&defs, &backends, true, "qwen").as_deref(), Some("gen-qwen"));
    assert!(find_assistant(&defs, &backends, true, "codex").is_none());
    let others: Vec<String> = vec!["aionrs".into(), "qwen".into(), "codex".into()];
    assert_eq!(
        ChannelSettingsService::resolve_default_assistant_identity(&defs, &others).as_deref(),
        Some("custom")
    );
    let older = setting(None, None, Some("qwen"), Some("acp"), None);
    assert_eq!(legacy_backend(&older).as_deref(), Some("qwen"));
    assert_eq!(
        ChannelSettingsService::resolve_assistant_identity_for_legacy_binding(&older, &defs, &backends).as_deref(),
        Some("gen-qwen")
    );
    let blank = setting(None, None, Some("  "), Some("codex"), None);
    assert_eq!(legacy_backend(&blank).as_deref(), Some("codex"));
    assert!(
        ChannelSettingsService::resolve_assistant_identity_for_legacy_binding(&blank, &defs, &backends).is_none()
    );
}

fn settings_are_shown_by_their_assistant() {
    let custom = setting(Some(" "), Some("c1"), Some("qwen"), Some("acp"), Some("Bot"));
    assert_eq!(explicit_assistant_id(&custom).as_deref(), Some("c1"));
    let shown = ChannelSettingsService::normalize_channel_assistant_setting_for_response(custom, Some("other".into()));
    assert_eq!(shown, setting(Some("c1"), None, None, None, Some("Bot")));
    // showing again changes nothing
    let again = ChannelSettingsService::normalize_channel_assistant_setting_for_response(
        setting(Some("c1"), None, None, None, Some("Bot")),
        None,
    );
    assert_eq!(again, shown);
    let older = setting(None, None, Some("qwen"), None, None);
    assert_eq!(
        ChannelSettingsService::normalize_channel_assistant_setting_for_response(older, Some("gen".into())),
        setting(Some("gen"), None, None, None, None)
    );
    let lost = setting(None, None, Some("qwen"), None, None);
    assert_eq!(
        ChannelSettingsService::normalize_channel_assistant_setting_for_response(lost, None),
        setting(None, None, Some("qwen"), None, None)
    );
}

fn what_is_written_is_shown() {
    assert_eq!(
        normalize_channel_assistant_setting_for_write("  a1 ", &Some("Bot".into())),
        setting(Some("a1"), None, None, None, Some("Bot"))
    );
    let (key, value) =
        ChannelSettingsService::set_assistant_setting(PluginType::Slack, "  a1 ", &Some("My \"bot\"".into()));
    assert_eq!(key, "assistant.slack.agent");
    let (model_key, model) = ChannelSettingsService::set_model_setting(
        PluginType::Slack,
        &DefaultModelSetting { id: "p1".into(), use_model: "m1".into() },
    );
    let prefs = vec![(key, value.clone()), (model_key, model)];
    let shown = ChannelSettingsService::get_platform_settings(&prefs, PluginType::Slack, None, Some("fb".into()));
    assert_eq!(shown.platform, "slack");
    assert_eq!(shown.assistant, Some(setting(Some("a1"), None, None, None, Some("My \"bot\""))));
    assert_eq!(shown.default_model, Some(DefaultModelSetting { id: "p1".into(), use_model: "m1".into() }));
    assert_eq!(
        ChannelSettingsService::get_assistant_setting(Some(&value), None, None),
        Some(setting(Some("a1"), None, None, None, Some("My \"bot\"")))
    );
    assert_eq!(ChannelSettingsService::get_agent_config(Some(&value)), AgentPlan::ResolveAssistant("a1".into()));
}

fn nothing_stored_falls_back() {
    let fallback = || Some("gen".to_string());
    let other = vec![("assistant.lark.agent".to_string(), r#"{"assistant_id":"a"}"#.to_string())];
    let shown = ChannelSettingsService::get_platform_settings(&other, PluginType::Slack, None, fallback());
    assert_eq!(shown.assistant, Some(setting(Some("gen"), None, None, None, None)));
    assert!(shown.default_model.is_none());
    assert_eq!(
        ChannelSettingsService::get_assistant_setting(None, None, fallback()),
        Some(setting(Some("gen"), None, None, None, None))
    );
    assert!(ChannelSettingsService::get_assistant_setting(None, None, None).is_none());
    assert!(ChannelSettingsService::get_assistant_setting(Some("junk"), None, fallback()).is_none());
    assert!(ChannelSettingsService::stored_choices(&other, PluginType::Slack).assistant.is_none());
    assert!(ChannelSettingsService::resolve_default_channel_assistant_setting(None).is_none());
}

fn config_of(stored: Option<&str>) -> ResolvedAgentConfig {
    match ChannelSettingsService::get_agent_config(stored) {
        AgentPlan::Ready(config) => config,
        AgentPlan::ResolveAssistant(id) => panic!("asked for the assistant {id}"),
    }
}

#[test]
fn agent_config_returns_default_when_no_pref() {
    let config = config_of(None);
    assert_eq!(config.agent_type, "aionrs");
    assert!(config.backend.is_none());
}

#[test]
fn agent_config_reads_acp_from_preferences() {
    let config = config_of(Some(r#"{"backend":"codex","name":"Codex"}"#));
    assert_eq!(config.agent_type, "acp");
    assert_eq!(config.backend.as_deref(), Some("codex"));
}

#[test]
fn agent_config_aionrs_has_no_backend() {
    let config = config_of(Some(r#"{"backend":"aionrs","name":"Aion CLI"}"#));
    assert_eq!(config.agent_type, "aionrs");
    assert!(config.backend.is_none());
}

#[test]
fn agent_config_reads_new_format_aionrs() {
    let config = config_of(Some(r#"{"agent_type":"aionrs","name":"Aion CLI"}"#));
    assert_eq!(config.agent_type, "aionrs");
    assert!(config.backend.is_none());
}

#[test]
fn agent_config_reads_new_format_openclaw() {
    let config = config_of(Some(r#"{"agent_type":"openclaw-gateway","name":"OpenClaw"}"#));
    assert_eq!(config.agent_type, "openclaw-gateway");
    assert!(config.backend.is_none());
}

#[test]
fn agent_config_errors_when_assistant_identity_cannot_resolve() {
    let stored = r#"{"assistant_id":"missing-assistant","name":"Missing"}"#;
    let id = match ChannelSettingsService::get_agent_config(Some(stored)) {
        AgentPlan::ResolveAssistant(id) => id,
        other => panic!("{:?}", other),
    };
    let err = assistant_agent(&id, None).unwrap_err();
    assert!(matches!(err, ChannelError::InvalidConfig(_)));
    assert!(
        err.message().contains("missing-assistant"),
        "error should name the unresolved assistant identity"
    );
}

#[test]
fn model_config_returns_none_when_no_pref() {
    assert!(ChannelSettingsService::get_model_config(None).is_none());
}

#[test]
fn model_config_returns_none_for_empty_values() {
    assert!(ChannelSettingsService::get_model_config(Some(r#"{"id":"","use_model":null}"#)).is_none());
}

#[test]
fn set_assistant_setting_trims_assistant_id_before_persisting() {
    let (key, value) =
        ChannelSettingsService::set_assistant_setting(PluginType::Lark, "  legacy-custom  ", &Some("Codex".into()));
    assert_eq!(key, "assistant.lark.agent");
    let payload = serde_json::from_str::<serde_json::Value>(&value).unwrap();
    assert_eq!(payload["assistant_id"], "legacy-custom");
    assert_eq!(payload["name"], "Codex");
    assert!(payload.get("custom_agent_id").is_none());
    assert!(payload.get("backend").is_none());
    assert!(payload.get("agent_type").is_none());
}

#[test]
fn get_assistant_setting_promotes_legacy_custom_agent_id_in_response() {
    let stored = r#"{"custom_agent_id":"legacy-custom","name":"Codex"}"#;
    let shown = ChannelSettingsService::get_assistant_setting(Some(stored), None, None).unwrap();
    assert_eq!(shown.assistant_id.as_deref(), Some("legacy-custom"));
    assert!(shown.custom_agent_id.is_none());
    assert!(shown.backend.is_none());
    assert!(shown.agent_type.is_none());
    assert_eq!(shown.name.as_deref(), Some("Codex"));
}

#[test]
fn get_assistant_setting_preserves_backend_only_legacy_response() {
    let stored = r#"{"backend":"codex","name":"Codex"}"#;
    let shown = ChannelSettingsService::get_assistant_setting(Some(stored), None, None).unwrap();
    assert!(shown.assistant_id.is_none());
    assert!(shown.custom_agent_id.is_none());
    assert_eq!(shown.backend.as_deref(), Some("codex"));
    assert!(shown.agent_type.is_none());
    assert_eq!(shown.name.as_deref(), Some("Codex"));
}

/// The generated assistant that a stored backend stands for.
fn generated_for(stored: &str) -> Option<String> {
    let definitions = vec![definition("def-bare-codex", "bare-codex", "generated", "codex")];
    let backends: Vec<String> = vec![runtime_backend("codex", None)];
    let stored = parse_channel_assistant_setting(stored).unwrap();
    ChannelSettingsService::resolve_assistant_identity_for_legacy_binding(&stored, &definitions, &backends)
}

#[test]
fn get_assistant_setting_canonicalizes_backend_only_legacy_response_when_assistant_repos_exist() {
    let stored = r#"{"backend":"codex","name":"Codex"}"#;
    let shown = ChannelSettingsService::get_assistant_setting(Some(stored), generated_for(stored), None).unwrap();
    assert_eq!(shown.assistant_id.as_deref(), Some("bare-codex"));
    assert!(shown.custom_agent_id.is_none());
    assert!(shown.backend.is_none());
    assert!(shown.agent_type.is_none());
    assert_eq!(shown.name.as_deref(), Some("Codex"));
}

#[test]
fn get_platform_settings_promotes_legacy_custom_agent_id_in_response() {
    let stored = r#"{"custom_agent_id":"legacy-custom","name":"Codex"}"#;
    let prefs = vec![("assistant.telegram.agent".to_string(), stored.to_string())];
    let settings = ChannelSettingsService::get_platform_settings(&prefs, PluginType::Telegram, None, None);
    let assistant = settings.assistant.expect("assistant settings");
    assert_eq!(assistant.assistant_id.as_deref(), Some("legacy-custom"));
    assert!(assistant.custom_agent_id.is_none());
    assert!(assistant.backend.is_none());
    assert!(assistant.agent_type.is_none());
    assert_eq!(assistant.name.as_deref(), Some("Codex"));
}

#[test]
fn get_platform_settings_canonicalizes_backend_only_legacy_response_when_assistant_repos_exist() {
    let stored = r#"{"backend":"codex","name":"Codex"}"#;
    let prefs = vec![("assistant.telegram.agent".to_string(), stored.to_string())];
    let legacy = generated_for(stored);
    let settings = ChannelSettingsService::get_platform_settings(&prefs, PluginType::Telegram, legacy, None);
    let assistant = settings.assistant.expect("assistant settings");
    assert_eq!(assistant.assistant_id.as_deref(), Some("bare-codex"));
    assert!(assistant.custom_agent_id.is_none());
    assert!(assistant.backend.is_none());
    assert!(assistant.agent_type.is_none());
    assert_eq!(assistant.name.as_deref(), Some("Codex"));
}

fn keys_are_apart() {
    let platforms = [
        PluginType::Telegram,
        PluginType::Lark,
        PluginType::Dingtalk,
        PluginType::Weixin,
        PluginType::Slack,
        PluginType::Discord,
    ];
    let mut keys: Vec<String> = Vec::new();
    for p in platforms {
        keys.push(agent_key(p));
        keys.push(model_key(p));
    }
    for i in 0..keys.len() {
        for j in 0..i {
            assert_ne!(keys[i], keys[j]);
        }
    }
}

fn the_latest_choice_is_read() {
    let agent = |p: PluginType, id: &str| ChannelSettingsService::set_assistant_setting(p, id, &None);
    let model = |p: PluginType, m: &str| {
        ChannelSettingsService::set_model_setting(p, &DefaultModelSetting { id: "p1".into(), use_model: m.into() })
    };
    let prefs = vec![
        agent(PluginType::Slack, "a1"),
        model(PluginType::Slack, "m1"),
        agent(PluginType::Lark, "b1"),
        agent(PluginType::Slack, "a2"),
        model(PluginType::Slack, "m2"),
    ];
    let slack = ChannelSettingsService::stored_choices(&prefs, PluginType::Slack);
    assert_eq!(slack.assistant, Some(setting(Some("a2"), None, None, None, None)));
    assert_eq!(slack.default_model.unwrap().use_model, "m2");
    let lark = ChannelSettingsService::stored_choices(&prefs, PluginType::Lark);
    assert_eq!(lark.assistant, Some(setting(Some("b1"), None, None, None, None)));
    assert!(lark.default_model.is_none());
    let used = ChannelSettingsService::get_model_config(Some(&prefs[4].1)).unwrap();
    assert_eq!(used.provider_id, "p1");
    assert_eq!(used.model, "m2");
    assert_eq!(used.use_model.as_deref(), Some("m2"));
    assert_eq!(prefs[0].1, r#"{"assistant_id":"a1"}"#);
    assert_eq!(prefs[1].1, r#"{"id":"p1","use_model":"m1"}"#);
}

#[test]
fn stored_choices_are_read() {
    keys_are_apart();
    the_latest_choice_is_read();
    keys_name_the_platform();
    backend_and_agent_type_go_together();
    stored_settings_are_read();
    stored_models_are_read();
}

#[test]
fn agents_are_found() {
    plans_follow_the_setting();
    unresolved_assistants_are_an_error();
    overlays_replace_agents();
    generated_assistants_answer_first();
}

#[test]
fn choices_are_shown() {
    settings_are_shown_by_their_assistant();
    what_is_written_is_shown();
    nothing_stored_falls_back();
}
