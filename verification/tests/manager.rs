//! Plugins that run and what is stored about them.
use aionui_channel::error::ChannelError;
use aionui_channel::json::JsonNode;
use aionui_channel::manager::{
    after_enable_step, after_restore_step, build_enabled_row, credentials_supplied, member_brings_credentials,
    no_implementation, plugin_type_of, restore_step, running_update, tag_owner, ChannelManager, ChannelRuntimeKey,
    ConfigChoice, EnableNext, EnableStage, EnableStep, PluginRow, RestoreNext, RestorePlan, RestoreStage, RestoreStep,
};
use aionui_channel::text_map::TextMap;
use aionui_channel::types::{
    MessageContentType, PluginCredentials, PluginStatus, PluginType, UnifiedIncomingMessage, UnifiedMessageContent,
    UnifiedUser,
};

#[test]
fn runtime_key_keeps_owner_and_plugin_boundaries() {
    let first = ChannelRuntimeKey::new("owner:a", "plugin");
    let second = ChannelRuntimeKey::new("owner", "a:plugin");

    assert_ne!(first, second);
}

#[test]
fn default_plugin_names() {
    assert_eq!(ChannelManager::default_plugin_name(PluginType::Telegram), "Telegram Bot");
    assert_eq!(ChannelManager::default_plugin_name(PluginType::Lark), "Lark Bot");
    assert_eq!(ChannelManager::default_plugin_name(PluginType::Dingtalk), "DingTalk Bot");
    assert_eq!(ChannelManager::default_plugin_name(PluginType::Weixin), "WeChat Bot");
    assert_eq!(ChannelManager::default_plugin_name(PluginType::Slack), "Slack Bot");
    assert_eq!(ChannelManager::default_plugin_name(PluginType::Discord), "Discord Bot");
}

fn plugins_of_owners_stay_apart() {
    let mut m = ChannelManager::new();
    assert_eq!(m.active_plugin_count(), 0);
    m.started("o1", "telegram", 1);
    m.started("o1", "lark", 2);
    m.started("o2", "telegram", 3);
    assert_eq!(m.active_plugin_count(), 3);
    assert_eq!(m.slot("o1", "telegram"), Some(1));
    assert_eq!(m.slot("o2", "telegram"), Some(3));
    assert_eq!(m.slot("o2", "lark"), None);
    assert_eq!(m.sender("o2", "telegram"), Ok(3));
    assert_eq!(m.sender("o2", "lark"), Err(ChannelError::PluginNotFound("lark".into())));

    let mut ended = m.shutdown_for_user("o1");
    ended.sort();
    assert_eq!(ended, vec![1, 2]);
    assert_eq!(m.active_plugin_count(), 1);
    assert_eq!(m.slot("o2", "telegram"), Some(3));
    assert_eq!(m.shutdown(), vec![3]);
    assert_eq!(m.active_plugin_count(), 0);
}

fn starting_again_replaces_the_slot() {
    let mut m = ChannelManager::new();
    m.started("o", "slack", 7);
    m.started("o", "slack", 8);
    assert_eq!(m.active_plugin_count(), 1);
    assert_eq!(m.stop_plugin("o", "slack"), Some(8));
    assert_eq!(m.stop_plugin("o", "slack"), None);
    assert_eq!(m.active_plugin_count(), 0);
}

fn running_needs_both_the_table_and_the_status() {
    let mut m = ChannelManager::new();
    assert!(!m.is_plugin_running("o", "slack", Some(PluginStatus::Running)));
    m.started("o", "slack", 1);
    assert!(m.is_plugin_running("o", "slack", Some(PluginStatus::Running)));
    assert!(!m.is_plugin_running("o", "slack", Some(PluginStatus::Stopped)));
    assert!(!m.is_plugin_running("o", "slack", None));
}

fn stored(status: Option<&str>, enabled: bool, plugin_type: &str) -> PluginRow {
    PluginRow {
        id: "telegram".into(),
        owner_user_id: "o".into(),
        plugin_type: plugin_type.into(),
        name: "Telegram Bot".into(),
        enabled,
        config: "enc".into(),
        status: status.map(|s| s.to_string()),
        last_connected: Some(5),
        created_at: 1,
        updated_at: 2,
    }
}

fn the_live_status_wins() {
    let mut m = ChannelManager::new();
    let row = stored(Some("stopped"), true, "telegram");
    let idle = m.row_to_status_response(&row, None);
    assert_eq!(idle.status.as_deref(), Some("stopped"));
    assert!(!idle.connected);
    assert!(idle.has_token);
    assert_eq!(idle.active_users, 0);
    assert!(idle.bot_username.is_none());
    m.started("o", "telegram", 1);
    let rows = vec![row];
    let live = m.get_plugin_status(&rows, &vec![Some(PluginStatus::Running)]);
    assert_eq!(live.len(), 1);
    assert_eq!(live[0].status.as_deref(), Some("running"));
    assert!(live[0].connected);
    assert_eq!(live[0].plugin_id, "telegram");
    assert_eq!(live[0].name, "Telegram Bot");
    assert_eq!(live[0].last_connected, Some(5));
}

fn enabled_rows_are_fresh() {
    let row = build_enabled_row("o", "lark", PluginType::Lark, "enc", 77);
    assert_eq!(row.id, "lark");
    assert_eq!(row.plugin_type, "lark");
    assert_eq!(row.name, "Lark Bot");
    assert!(row.enabled);
    assert_eq!(row.config, "enc");
    assert_eq!(row.created_at, 77);
    assert_eq!(row.updated_at, 77);
}

fn extension_plugins_keep_their_first_day() {
    let fresh = ChannelManager::enable_extension_plugin("o", "ext-1", "My Ext", "cfg", None, 50);
    assert_eq!(fresh.name, "My Ext");
    assert_eq!(fresh.created_at, 50);
    let old = stored(Some("running"), false, "ext");
    let again = ChannelManager::enable_extension_plugin("o", "ext-1", "My Ext", "cfg", Some(&old), 60);
    assert_eq!(again.created_at, 1);
    assert_eq!(again.updated_at, 60);
    assert!(again.enabled);
}

fn status_updates_are_exact() {
    let up = running_update(9);
    assert_eq!(up.status, Some(PluginStatus::Running));
    assert_eq!(up.last_connected, Some(9));
    assert_eq!(ChannelManager::update_plugin_error().status, Some(PluginStatus::Error));
}

fn disabling_twice_changes_nothing() {
    let mut m = ChannelManager::new();
    let off = stored(Some("stopped"), false, "telegram");
    assert!(m.disable_plugin("o", "telegram", Some(&off)).is_none());
    for row in [
        None,
        Some(stored(Some("running"), true, "telegram")),
        Some(stored(Some("stopped"), true, "telegram")),
        Some(stored(Some("error"), false, "telegram")),
        Some(stored(None, false, "telegram")),
    ] {
        let down = m.disable_plugin("o", "telegram", row.as_ref()).unwrap();
        assert_eq!(down.enabled, Some(false));
        assert_eq!(down.status, Some(PluginStatus::Stopped));
        assert_eq!(down.last_connected, None);
    }
    m.started("o", "telegram", 1);
    assert!(m.disable_plugin("o", "telegram", Some(&off)).is_some());
    assert!(m.disable_plugin("p", "telegram", Some(&off)).is_none());
}

fn restoring_goes_step_by_step() {
    let steps = [
        RestoreStep::Open,
        RestoreStep::Create,
        RestoreStep::Initialize,
        RestoreStep::Start,
        RestoreStep::RecordRunning,
        RestoreStep::Publish,
    ];
    let mut stage = RestoreStage::Planned;
    for (i, step) in steps.iter().enumerate() {
        assert_eq!(restore_step(stage), *step);
        match after_restore_step(*step, false) {
            RestoreNext::Failed(update) => {
                assert_eq!(update.status, Some(PluginStatus::Error));
                assert_eq!(update.enabled, None);
                assert_eq!(update.last_connected, None);
            }
            other => panic!("{:?}", other),
        }
        match after_restore_step(*step, true) {
            RestoreNext::Stage(next) => stage = next,
            RestoreNext::Running => assert_eq!(i, 5),
            other => panic!("{:?}", other),
        }
    }
    assert_eq!(stage, RestoreStage::Recorded);
}

fn plugin_ids_name_their_platform() {
    assert_eq!(plugin_type_of("weixin"), Ok(PluginType::Weixin));
    assert_eq!(plugin_type_of("matrix"), Err(ChannelError::InvalidPluginType("matrix".into())));
    assert_eq!(
        no_implementation(PluginType::Slack).message(),
        "Invalid plugin type: No implementation for slack"
    );
}

fn no_credentials() -> PluginCredentials {
    PluginCredentials {
        token: None,
        app_id: None,
        app_secret: None,
        encrypt_key: None,
        verification_token: None,
        client_id: None,
        client_secret: None,
        account_id: None,
        bot_token: None,
        app_token: None,
        extra: TextMap::new(),
    }
}

fn supplied_credentials_are_told_from_none() {
    assert!(!credentials_supplied("{}"));
    assert!(!credentials_supplied(r#"{"credentials":null}"#));
    assert!(!credentials_supplied(r#"{"credentials":{}}"#));
    assert!(credentials_supplied(r#"{"credentials":{"token":"t"}}"#));
    assert!(!member_brings_credentials(&None));
    assert!(!member_brings_credentials(&Some(JsonNode::Object(vec![]))));
    assert!(member_brings_credentials(&Some(JsonNode::Object(vec![("token".into(), "\"t\"".into())]))));
    assert!(no_credentials().is_empty());
    let mut some = no_credentials();
    some.bot_token = Some("b".into());
    assert!(!some.is_empty());
}

fn blank_configurations_reuse_the_stored_one() {
    let mut some = no_credentials();
    some.token = Some("t".into());
    assert_eq!(ChannelManager::config_with_credentials(false, Err("unread")), Ok(ConfigChoice::Stored));
    assert_eq!(ChannelManager::config_with_credentials(true, Ok(&some)), Ok(ConfigChoice::Supplied));
    let bad = ChannelManager::config_with_credentials(true, Err("missing field"));
    assert!(matches!(bad, Err(ChannelError::InvalidConfig(m)) if m.contains("missing field")));
}

fn a_stored_configuration_is_needed() {
    let row = stored(None, true, "telegram");
    assert_eq!(ChannelManager::load_stored_config("telegram", Some(&row)), Ok("enc".to_string()));
    assert!(ChannelManager::load_stored_config("telegram", None).is_err());
    let mut blank = stored(None, true, "telegram");
    blank.config = "".into();
    assert!(ChannelManager::load_stored_config("telegram", Some(&blank)).is_err());
}

fn enabling_goes_step_by_step() {
    let steps: Vec<EnableStep> = [
        EnableStage::Configured,
        EnableStage::Stopped,
        EnableStage::Stored,
        EnableStage::Created,
        EnableStage::Initialized,
        EnableStage::Started,
        EnableStage::Recorded,
    ]
    .iter()
    .map(|s| ChannelManager::enable_plugin(*s))
    .collect();
    assert_eq!(
        steps,
        vec![
            EnableStep::StopOld,
            EnableStep::Store,
            EnableStep::Create,
            EnableStep::Initialize,
            EnableStep::Start,
            EnableStep::RecordRunning,
            EnableStep::Publish,
        ]
    );
    let mut stage = EnableStage::Configured;
    for (i, step) in steps.iter().enumerate() {
        assert_eq!(ChannelManager::enable_plugin(stage), *step);
        match after_enable_step(*step, false) {
            EnableNext::Failed(Some(update)) => {
                assert!(matches!(step, EnableStep::Initialize | EnableStep::Start));
                assert_eq!(update, ChannelManager::update_plugin_error());
            }
            EnableNext::Failed(None) => assert!(!matches!(step, EnableStep::Initialize | EnableStep::Start)),
            other => panic!("{:?}", other),
        }
        match after_enable_step(*step, true) {
            EnableNext::Stage(next) => stage = next,
            EnableNext::Running => assert_eq!(i, 6),
            other => panic!("{:?}", other),
        }
    }
    assert_eq!(stage, EnableStage::Recorded);
}

fn restoring_follows_the_row() {
    assert_eq!(ChannelManager::restore_plugin(&stored(None, false, "telegram")), RestorePlan::Leave);
    assert_eq!(
        ChannelManager::restore_plugin(&stored(None, true, "telegram")),
        RestorePlan::Start(PluginType::Telegram)
    );
    assert_eq!(ChannelManager::restore_plugin(&stored(None, true, "my-extension")), RestorePlan::Announce);
}

fn messages_carry_their_owner() {
    let msg = UnifiedIncomingMessage {
        owner_user_id: None,
        id: "1".into(),
        platform: PluginType::Slack,
        chat_id: "c".into(),
        user: UnifiedUser { id: "u".into(), username: None, display_name: "U".into(), avatar_url: None },
        content: UnifiedMessageContent { content_type: MessageContentType::Text, text: "t".into(), attachments: None },
        timestamp: 3,
        reply_to_message_id: None,
        action: None,
    };
    let tagged = tag_owner(msg, "owner");
    assert_eq!(tagged.owner_user_id.as_deref(), Some("owner"));
    assert_eq!(tagged.id, "1");
    assert_eq!(tagged.content.text, "t");
}

fn plugin_types_are_read_back() {
    for t in [
        PluginType::Telegram,
        PluginType::Lark,
        PluginType::Dingtalk,
        PluginType::Weixin,
        PluginType::Slack,
        PluginType::Discord,
    ] {
        assert_eq!(PluginType::from_str_opt(t.as_str()), Some(t));
    }
    assert_eq!(PluginType::from_str_opt("x"), None);
}

#[test]
fn running_plugins_are_known() {
    plugins_of_owners_stay_apart();
    starting_again_replaces_the_slot();
    running_needs_both_the_table_and_the_status();
    the_live_status_wins();
}

#[test]
fn stored_plugins_are_exact() {
    enabled_rows_are_fresh();
    extension_plugins_keep_their_first_day();
    status_updates_are_exact();
    disabling_twice_changes_nothing();
    restoring_follows_the_row();
    restoring_goes_step_by_step();
}

#[test]
fn plugins_are_enabled() {
    supplied_credentials_are_told_from_none();
    blank_configurations_reuse_the_stored_one();
    a_stored_configuration_is_needed();
    enabling_goes_step_by_step();
}

#[test]
fn names_and_owners_are_kept() {
    plugin_ids_name_their_platform();
    messages_carry_their_owner();
    plugin_types_are_read_back();
}
