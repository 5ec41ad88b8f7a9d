//! Which agent and which model answer on a platform.
//!
//! Each platform has two stored preferences: the assistant that answers there,
//! and the model that it uses by default. Assistants, overlays and agents are
//! kept elsewhere; the functions here say what the stored texts mean and which
//! of the assistants is chosen.
use vstd::prelude::*;
use vstd::string::*;

use crate::error::ChannelError;
use crate::json;
use crate::json::{get_str, object_text, parse_node, JsonNode};
use crate::text;
use crate::text::{str_eq, trim};
use crate::types;
use crate::types::{copy_opt, PluginType};

verus! {

/// The rules by which stored preferences choose agents and models. It keeps
/// nothing: preferences and assistants are stored outside.
pub struct ChannelSettingsService;

/// The agent type that answers where nothing else is chosen.
pub const DEFAULT_AGENT_TYPE: &'static str = "aionrs";

/// The agent that answers on a platform. Only agents that name their runtime by
/// a vendor have a backend.
#[derive(Debug, PartialEq, Eq)]
pub struct ResolvedAgentConfig {
    pub agent_type: String,
    pub backend: Option<String>,
}

/// What an agent configuration holds.
pub struct AgentConfigView {
    pub agent_type: Seq<char>,
    pub backend: Option<Seq<char>>,
}

impl View for ResolvedAgentConfig {
    type V = AgentConfigView;

    open spec fn view(&self) -> AgentConfigView {
        AgentConfigView { agent_type: self.agent_type@, backend: types::opt_text(self.backend) }
    }
}

/// The model that is used on a platform.
#[derive(Debug, PartialEq, Eq)]
pub struct ResolvedModelConfig {
    pub provider_id: String,
    pub model: String,
    pub use_model: Option<String>,
}

/// A provider and one of its models.
#[derive(Debug, PartialEq, Eq)]
pub struct ProviderWithModel {
    pub provider_id: String,
    pub model: String,
    pub use_model: Option<String>,
}

/// What a model configuration holds.
pub struct ModelConfigView {
    pub provider_id: Seq<char>,
    pub model: Seq<char>,
    pub use_model: Option<Seq<char>>,
}

impl View for ResolvedModelConfig {
    type V = ModelConfigView;

    open spec fn view(&self) -> ModelConfigView {
        ModelConfigView {
            provider_id: self.provider_id@,
            model: self.model@,
            use_model: types::opt_text(self.use_model),
        }
    }
}

impl View for ProviderWithModel {
    type V = ModelConfigView;

    open spec fn view(&self) -> ModelConfigView {
        ModelConfigView {
            provider_id: self.provider_id@,
            model: self.model@,
            use_model: types::opt_text(self.use_model),
        }
    }
}

/// The stored choice of an assistant. Older choices name a backend, an agent
/// type or a custom agent instead of an assistant.
#[derive(Debug, PartialEq, Eq)]
pub struct AssistantSetting {
    pub assistant_id: Option<String>,
    pub custom_agent_id: Option<String>,
    pub backend: Option<String>,
    pub agent_type: Option<String>,
    pub name: Option<String>,
}

/// What the choice of an assistant holds.
pub struct SettingView {
    pub assistant_id: Option<Seq<char>>,
    pub custom_agent_id: Option<Seq<char>>,
    pub backend: Option<Seq<char>>,
    pub agent_type: Option<Seq<char>>,
    pub name: Option<Seq<char>>,
}

impl View for AssistantSetting {
    type V = SettingView;

    open spec fn view(&self) -> SettingView {
        SettingView {
            assistant_id: types::opt_text(self.assistant_id),
            custom_agent_id: types::opt_text(self.custom_agent_id),
            backend: types::opt_text(self.backend),
            agent_type: types::opt_text(self.agent_type),
            name: types::opt_text(self.name),
        }
    }
}

/// What an optional choice holds.
pub open spec fn opt_setting(s: Option<AssistantSetting>) -> Option<SettingView> {
    match s {
        Some(x) => Some(x@),
        None => None,
    }
}

/// The stored default model.
#[derive(Debug, PartialEq, Eq)]
pub struct DefaultModelSetting {
    pub id: String,
    pub use_model: String,
}

/// An assistant that a user has.
#[derive(Debug, PartialEq, Eq)]
pub struct AssistantDefinition {
    pub id: String,
    pub assistant_id: String,
    pub source: String,
    pub agent_id: String,
}

/// A user's change to an assistant.
#[derive(Debug, PartialEq, Eq)]
pub struct AssistantOverlay {
    pub assistant_definition_id: String,
    pub agent_id_override: Option<String>,
}

// ---------------------------------------------------------------------------
// Keys
// ---------------------------------------------------------------------------

/// The key of a platform's assistant.
pub open spec fn agent_key_text(platform: PluginType) -> Seq<char> {
    "assistant."@ + types::plugin_type_text(platform) + ".agent"@
}

/// The key of a platform's default model.
pub open spec fn model_key_text(platform: PluginType) -> Seq<char> {
    "assistant."@ + types::plugin_type_text(platform) + ".defaultModel"@
}

/// The key of a platform's assistant.
pub fn agent_key(platform: PluginType) -> (r: String)
    ensures
        r@ == agent_key_text(platform),
{
    let mut key = "assistant.".to_owned();
    key.append(platform.as_str());
    key.append(".agent");
    key
}

/// The key of a platform's default model.
pub fn model_key(platform: PluginType) -> (r: String)
    ensures
        r@ == model_key_text(platform),
{
    let mut key = "assistant.".to_owned();
    key.append(platform.as_str());
    key.append(".defaultModel");
    key
}

// ---------------------------------------------------------------------------
// Agent types
// ---------------------------------------------------------------------------

/// The type of the agent behind a backend. Whatever is not named here speaks
/// the common agent protocol.
pub open spec fn agent_type_of(backend: Seq<char>) -> Seq<char> {
    if backend == "aionrs"@ || backend == "aion-cli"@ {
        "aionrs"@
    } else if backend == "openclaw-gateway"@ || backend == "nanobot"@ || backend == "remote"@ || backend
        == "antigravity"@ {
        backend
    } else {
        "acp"@
    }
}

/// The type of the agent behind a backend.
pub fn backend_to_agent_type(backend: &str) -> (r: String)
    ensures
        r@ == agent_type_of(backend@),
{
    if str_eq(backend, "aionrs") || str_eq(backend, "aion-cli") {
        "aionrs".to_owned()
    } else if str_eq(backend, "openclaw-gateway") || str_eq(backend, "nanobot") || str_eq(backend, "remote") || str_eq(
        backend,
        "antigravity",
    ) {
        backend.to_owned()
    } else {
        "acp".to_owned()
    }
}

/// Whether an agent of this type names its runtime by a backend.
pub open spec fn carries_backend(agent_type: Seq<char>) -> bool {
    agent_type == "acp"@ || agent_type == "antigravity"@
}

/// Whether an agent of this type names its runtime by a backend.
pub fn agent_type_carries_backend(agent_type: &str) -> (r: bool)
    ensures
        r == carries_backend(agent_type@),
{
    str_eq(agent_type, "acp") || str_eq(agent_type, "antigravity")
}

/// The agent of this type, with the backend where the type carries one.
pub open spec fn agent_config(agent_type: Seq<char>, backend: Option<Seq<char>>) -> AgentConfigView {
    AgentConfigView {
        agent_type,
        backend: if carries_backend(agent_type) {
            backend
        } else {
            None
        },
    }
}

/// The agent behind a backend.
pub open spec fn backend_config(backend: Seq<char>) -> AgentConfigView {
    agent_config(agent_type_of(backend), Some(backend))
}

/// The agent that answers where nothing is chosen.
pub open spec fn default_config() -> AgentConfigView {
    AgentConfigView { agent_type: DEFAULT_AGENT_TYPE@, backend: None }
}

/// The agent behind a backend.
pub fn agent_config_for_backend(backend: &str) -> (r: ResolvedAgentConfig)
    ensures
        r@ == backend_config(backend@),
{
    let agent_type = backend_to_agent_type(backend);
    let backend = if agent_type_carries_backend(agent_type.as_str()) {
        Some(backend.to_owned())
    } else {
        None
    };
    ResolvedAgentConfig { agent_type, backend }
}

/// The agent that answers where nothing is chosen.
pub fn default_agent_config() -> (r: ResolvedAgentConfig)
    ensures
        r@ == default_config(),
{
    ResolvedAgentConfig { agent_type: DEFAULT_AGENT_TYPE.to_owned(), backend: None }
}

// ---------------------------------------------------------------------------
// Stored texts
// ---------------------------------------------------------------------------

/// The choice that a stored document states: a bare text names a backend,
/// anything else is read by its members.
pub open spec fn setting_of(
    node: Option<json::NodeView>,
    assistant_id: Option<Seq<char>>,
    custom_agent_id: Option<Seq<char>>,
    backend: Option<Seq<char>>,
    agent_type: Option<Seq<char>>,
    name: Option<Seq<char>>,
) -> Option<SettingView> {
    match node {
        None => None,
        Some(json::NodeView::Text(raw)) => Some(
            SettingView {
                assistant_id: None,
                custom_agent_id: None,
                backend: Some(raw),
                agent_type: Some(agent_type_of(raw)),
                name: None,
            },
        ),
        Some(_) => Some(SettingView { assistant_id, custom_agent_id, backend, agent_type, name }),
    }
}

/// The choice that a stored text states.
pub open spec fn stored_setting(value: Seq<char>) -> Option<SettingView> {
    setting_of(
        json::json_node(value),
        json::node_str(json::json_member(value, "assistant_id"@)),
        json::node_str(json::json_member(value, "custom_agent_id"@)),
        json::node_str(json::json_member(value, "backend"@)),
        json::node_str(json::json_member(value, "agent_type"@)),
        json::node_str(json::json_member(value, "name"@)),
    )
}

/// The choice that a document with these members states.
pub fn assistant_setting_of(
    node: Option<JsonNode>,
    assistant_id: Option<String>,
    custom_agent_id: Option<String>,
    backend: Option<String>,
    agent_type: Option<String>,
    name: Option<String>,
) -> (r: Option<AssistantSetting>)
    ensures
        opt_setting(r) == setting_of(
            json::opt_node(node),
            types::opt_text(assistant_id),
            types::opt_text(custom_agent_id),
            types::opt_text(backend),
            types::opt_text(agent_type),
            types::opt_text(name),
        ),
{
    match node {
        None => None,
        Some(JsonNode::Text(raw)) => {
            let agent_type = backend_to_agent_type(raw.as_str());
            Some(
                AssistantSetting {
                    assistant_id: None,
                    custom_agent_id: None,
                    backend: Some(raw),
                    agent_type: Some(agent_type),
                    name: None,
                },
            )
        },
        Some(_) => Some(AssistantSetting { assistant_id, custom_agent_id, backend, agent_type, name }),
    }
}

/// The choice that a stored text states; none where it is no document.
pub fn parse_channel_assistant_setting(value: &str) -> (r: Option<AssistantSetting>)
    ensures
        opt_setting(r) == stored_setting(value@),
{
    assistant_setting_of(
        parse_node(value),
        get_str(value, "assistant_id"),
        get_str(value, "custom_agent_id"),
        get_str(value, "backend"),
        get_str(value, "agent_type"),
        get_str(value, "name"),
    )
}

/// The default model that a stored text states: both parts are needed.
pub open spec fn stored_model_setting(id: Option<Seq<char>>, use_model: Option<Seq<char>>) -> Option<
    (Seq<char>, Seq<char>),
> {
    match (id, use_model) {
        (Some(i), Some(m)) => Some((i, m)),
        _ => None,
    }
}

/// What an optional default model holds.
pub open spec fn opt_model_setting(s: Option<DefaultModelSetting>) -> Option<(Seq<char>, Seq<char>)> {
    match s {
        Some(m) => Some((m.id@, m.use_model@)),
        None => None,
    }
}

/// The default model with these parts: both are needed.
pub fn model_setting_of(id: Option<String>, use_model: Option<String>) -> (r: Option<DefaultModelSetting>)
    ensures
        opt_model_setting(r) == stored_model_setting(types::opt_text(id), types::opt_text(use_model)),
{
    match (id, use_model) {
        (Some(id), Some(use_model)) => Some(DefaultModelSetting { id, use_model }),
        _ => None,
    }
}

/// The default model that a stored text states.
pub open spec fn model_stored_in(value: Seq<char>) -> Option<(Seq<char>, Seq<char>)> {
    stored_model_setting(
        json::node_str(json::json_member(value, "id"@)),
        json::node_str(json::json_member(value, "use_model"@)),
    )
}

/// The model that is used with a stored text.
pub open spec fn model_used_with(value: Seq<char>) -> Option<ModelConfigView> {
    model_config_of(
        json::node_str(json::json_member(value, "id"@)),
        json::node_str(json::json_member(value, "use_model"@)),
    )
}

/// The default model that a stored text states.
pub fn parse_channel_model_setting(value: &str) -> (r: Option<DefaultModelSetting>)
    ensures
        opt_model_setting(r) == model_stored_in(value@),
{
    model_setting_of(get_str(value, "id"), get_str(value, "use_model"))
}

/// The model that these parts of a stored text stand for: none where there is
/// neither a provider nor a model.
pub open spec fn model_config_of(id: Option<Seq<char>>, use_model: Option<Seq<char>>) -> Option<ModelConfigView> {
    let provider_id = types::text_or_empty(id);
    if provider_id.len() == 0 && use_model is None {
        None
    } else {
        Some(ModelConfigView { provider_id, model: types::text_or_empty(use_model), use_model })
    }
}

/// What an optional model configuration holds.
pub open spec fn opt_model_config(m: Option<ResolvedModelConfig>) -> Option<ModelConfigView> {
    match m {
        Some(x) => Some(x@),
        None => None,
    }
}

/// The model that these parts stand for.
pub fn model_config_from_parts(id: Option<String>, use_model: Option<String>) -> (r: Option<ResolvedModelConfig>)
    ensures
        opt_model_config(r) == model_config_of(types::opt_text(id), types::opt_text(use_model)),
{
    let provider_id = types::copy_or_empty(&id);
    if provider_id.as_str().is_empty() && use_model.is_none() {
        None
    } else {
        let model = types::copy_or_empty(&use_model);
        Some(ResolvedModelConfig { provider_id, model, use_model })
    }
}

impl ChannelSettingsService {
    /// The model that is used on a platform with this stored text.
    pub fn get_model_config(stored: Option<&str>) -> (r: Option<ResolvedModelConfig>)
        ensures
            opt_model_config(r) == match stored {
                None => None,
                Some(value) => model_used_with(value@),
            },
    {
        match stored {
            None => None,
            Some(value) => model_config_from_parts(get_str(value, "id"), get_str(value, "use_model")),
        }
    }
}

/// The provider and model of a configuration; empty where there is none.
pub open spec fn provider_of(model: Option<ModelConfigView>) -> ModelConfigView {
    match model {
        Some(m) => m,
        None => ModelConfigView { provider_id: Seq::empty(), model: Seq::empty(), use_model: None },
    }
}

/// The provider and model of a configuration; empty where there is none.
pub fn resolved_model_to_provider(model: Option<&ResolvedModelConfig>) -> (r: ProviderWithModel)
    ensures
        r@ == provider_of(
            match model {
                Some(m) => Some(m@),
                None => None,
            },
        ),
{
    match model {
        Some(m) => ProviderWithModel {
            provider_id: m.provider_id.clone(),
            model: m.model.clone(),
            use_model: copy_opt(&m.use_model),
        },
        None => ProviderWithModel { provider_id: String::new(), model: String::new(), use_model: None },
    }
}

// ---------------------------------------------------------------------------
// The agent of a platform
// ---------------------------------------------------------------------------

/// How the agent of a platform is found.
#[derive(Debug, PartialEq, Eq)]
pub enum AgentPlan {
    /// This is the agent.
    Ready(ResolvedAgentConfig),
    /// It is the agent of this assistant.
    ResolveAssistant(String),
}

/// What a plan holds.
pub enum PlanView {
    Ready(AgentConfigView),
    ResolveAssistant(Seq<char>),
}

impl View for AgentPlan {
    type V = PlanView;

    open spec fn view(&self) -> PlanView {
        match self {
            AgentPlan::Ready(c) => PlanView::Ready(c@),
            AgentPlan::ResolveAssistant(id) => PlanView::ResolveAssistant(id@),
        }
    }
}

/// How the agent of a choice is found: by its assistant, or else by its agent
/// type, or else by its backend; with none of these the default answers.
pub open spec fn plan_of(setting: Option<SettingView>) -> PlanView {
    match setting {
        None => PlanView::Ready(default_config()),
        Some(s) => match (s.assistant_id, s.agent_type, s.backend) {
            (Some(id), _, _) => PlanView::ResolveAssistant(id),
            (None, Some(t), b) => PlanView::Ready(agent_config(t, b)),
            (None, None, Some(b)) => PlanView::Ready(backend_config(b)),
            (None, None, None) => PlanView::Ready(default_config()),
        },
    }
}

/// How the agent of a choice is found.
pub fn plan_agent(setting: Option<&AssistantSetting>) -> (r: AgentPlan)
    ensures
        r@ == plan_of(
            match setting {
                Some(s) => Some(s@),
                None => None,
            },
        ),
{
    match setting {
        None => AgentPlan::Ready(default_agent_config()),
        Some(s) => {
            if let Some(id) = &s.assistant_id {
                AgentPlan::ResolveAssistant(id.clone())
            } else if let Some(agent_type) = &s.agent_type {
                let backend = if agent_type_carries_backend(agent_type.as_str()) {
                    copy_opt(&s.backend)
                } else {
                    None
                };
                AgentPlan::Ready(ResolvedAgentConfig { agent_type: agent_type.clone(), backend })
            } else if let Some(backend) = &s.backend {
                AgentPlan::Ready(agent_config_for_backend(backend.as_str()))
            } else {
                AgentPlan::Ready(default_agent_config())
            }
        },
    }
}

impl ChannelSettingsService {
    /// How the agent of a platform with this stored text is found.
    pub fn get_agent_config(stored: Option<&str>) -> (r: AgentPlan)
        ensures
            r@ == match stored {
                None => PlanView::Ready(default_config()),
                Some(value) => plan_of(stored_setting(value@)),
            },
    {
        match stored {
            None => AgentPlan::Ready(default_agent_config()),
            Some(value) => {
                let setting = parse_channel_assistant_setting(value);
                plan_agent(setting.as_ref())
            },
        }
    }
}

/// The agent of an assistant, once it has been looked up; a choice of an
/// assistant that cannot be found is an error.
pub fn assistant_agent(assistant_id: &str, resolved: Option<ResolvedAgentConfig>) -> (r: Result<
    ResolvedAgentConfig,
    ChannelError,
>)
    ensures
        match r {
            Ok(c) => resolved == Some(c),
            Err(e) => resolved is None && e@ == crate::error::ErrorView::InvalidConfig(
                "Channel assistant binding references unresolved assistant identity: "@ + assistant_id@,
            ),
        },
{
    match resolved {
        Some(c) => Ok(c),
        None => {
            let mut text = "Channel assistant binding references unresolved assistant identity: ".to_owned();
            text.append(assistant_id);
            Err(ChannelError::InvalidConfig(text))
        },
    }
}

/// The runtime of an agent: that of its binding, or else its own id.
pub fn runtime_backend(agent_id: &str, binding: Option<&str>) -> (r: String)
    ensures
        r@ == match binding {
            Some(b) => b@,
            None => agent_id@,
        },
{
    match binding {
        Some(b) => b.to_owned(),
        None => agent_id.to_owned(),
    }
}

// ---------------------------------------------------------------------------
// Assistants
// ---------------------------------------------------------------------------

/// The place of the first overlay of a definition, or the number of overlays.
pub open spec fn overlay_index(overlays: Seq<AssistantOverlay>, definition_id: Seq<char>) -> nat
    decreases overlays.len(),
{
    if overlays.len() == 0 || overlays[0].assistant_definition_id@ == definition_id {
        0
    } else {
        1 + overlay_index(overlays.skip(1), definition_id)
    }
}

/// The agent of an assistant: the one that its first overlay puts in, or else
/// its own.
pub open spec fn effective_agent(definition: AssistantDefinition, overlays: Seq<AssistantOverlay>) -> Seq<char> {
    let i = overlay_index(overlays, definition.id@) as int;
    if i < overlays.len() && overlays[i].agent_id_override is Some {
        overlays[i].agent_id_override->0@
    } else {
        definition.agent_id@
    }
}

/// The agent of an assistant: the one that its first overlay puts in, or else
/// its own.
pub fn effective_agent_id(definition: &AssistantDefinition, overlays: &Vec<AssistantOverlay>) -> (r: String)
    ensures
        r@ == effective_agent(*definition, overlays@),
{
    let mut i: usize = 0;
    assert(overlays@.skip(0) =~= overlays@);
    while i < overlays.len()
        invariant
            i <= overlays.len(),
            overlay_index(overlays@, definition.id@) == i + overlay_index(overlays@.skip(i as int), definition.id@),
        decreases overlays.len() - i,
    {
        assert(overlays@.skip(i as int)[0] == overlays@[i as int]);
        if str_eq(overlays[i].assistant_definition_id.as_str(), definition.id.as_str()) {
            return match &overlays[i].agent_id_override {
                Some(id) => id.clone(),
                None => definition.agent_id.clone(),
            };
        }
        assert(overlays@.skip(i as int).skip(1) =~= overlays@.skip(i + 1));
        i += 1;
    }
    definition.agent_id.clone()
}

/// The place of the first assistant that runs on `backend`, among all or among
/// the generated ones; the number of assistants where there is none.
pub open spec fn assistant_index(
    definitions: Seq<AssistantDefinition>,
    backends: Seq<Seq<char>>,
    generated_only: bool,
    backend: Seq<char>,
) -> nat
    decreases definitions.len(),
{
    if definitions.len() == 0 {
        0
    } else if (generated_only ==> definitions[0].source@ == "generated"@) && backends[0] == backend {
        0
    } else {
        1 + assistant_index(definitions.skip(1), backends.skip(1), generated_only, backend)
    }
}

/// The first assistant that runs on `backend`, among all or among the generated
/// ones.
pub open spec fn assistant_on(
    definitions: Seq<AssistantDefinition>,
    backends: Seq<Seq<char>>,
    generated_only: bool,
    backend: Seq<char>,
) -> Option<Seq<char>> {
    let i = assistant_index(definitions, backends, generated_only, backend) as int;
    if i < definitions.len() {
        Some(definitions[i].assistant_id@)
    } else {
        None
    }
}

/// The first assistant that runs on `backend`. `backends` gives the runtime of
/// each assistant.
pub fn find_assistant(
    definitions: &Vec<AssistantDefinition>,
    backends: &Vec<String>,
    generated_only: bool,
    backend: &str,
) -> (r: Option<String>)
    requires
        definitions.len() == backends.len(),
    ensures
        types::opt_text(r) == assistant_on(definitions@, text::texts(backends@), generated_only, backend@),
{
    let ghost views = text::texts(backends@);
    let mut i: usize = 0;
    assert(definitions@.skip(0) =~= definitions@);
    assert(views.skip(0) =~= views);
    while i < definitions.len()
        invariant
            i <= definitions.len(),
            definitions.len() == backends.len(),
            views == text::texts(backends@),
            assistant_index(definitions@, views, generated_only, backend@) == i + assistant_index(
                definitions@.skip(i as int),
                views.skip(i as int),
                generated_only,
                backend@,
            ),
        decreases definitions.len() - i,
    {
        assert(definitions@.skip(i as int)[0] == definitions@[i as int]);
        assert(views.skip(i as int)[0] == backends@[i as int]@);
        if (!generated_only || str_eq(definitions[i].source.as_str(), "generated")) && str_eq(
            backends[i].as_str(),
            backend,
        ) {
            return Some(definitions[i].assistant_id.clone());
        }
        assert(definitions@.skip(i as int).skip(1) =~= definitions@.skip(i + 1));
        assert(views.skip(i as int).skip(1) =~= views.skip(i + 1));
        i += 1;
    }
    None
}

/// The assistant that answers where none is chosen: the first generated one on
/// the default runtime, or else the first of all on it.
pub open spec fn default_assistant(definitions: Seq<AssistantDefinition>, backends: Seq<Seq<char>>) -> Option<Seq<char>> {
    match assistant_on(definitions, backends, true, DEFAULT_AGENT_TYPE@) {
        Some(id) => Some(id),
        None => assistant_on(definitions, backends, false, DEFAULT_AGENT_TYPE@),
    }
}

impl ChannelSettingsService {
    /// The assistant that answers where none is chosen. `backends` gives the
    /// runtime of each assistant.
    pub fn resolve_default_assistant_identity(definitions: &Vec<AssistantDefinition>, backends: &Vec<String>) -> (r: Option<
        String,
    >)
        requires
            definitions.len() == backends.len(),
        ensures
            types::opt_text(r) == default_assistant(definitions@, text::texts(backends@)),
    {
        match find_assistant(definitions, backends, true, DEFAULT_AGENT_TYPE) {
            Some(id) => Some(id),
            None => find_assistant(definitions, backends, false, DEFAULT_AGENT_TYPE),
        }
    }
}

/// The choice of an assistant and of nothing else.
pub open spec fn bare_setting(assistant_id: Seq<char>, name: Option<Seq<char>>) -> SettingView {
    SettingView { assistant_id: Some(assistant_id), custom_agent_id: None, backend: None, agent_type: None, name }
}

impl ChannelSettingsService {
    /// The choice that holds where none is stored.
    pub fn resolve_default_channel_assistant_setting(assistant_id: Option<String>) -> (r: Option<AssistantSetting>)
        ensures
            opt_setting(r) == match assistant_id {
                Some(id) => Some(bare_setting(id@, None)),
                None => None,
            },
    {
        match assistant_id {
            None => None,
            Some(id) => Some(
                AssistantSetting {
                    assistant_id: Some(id),
                    custom_agent_id: None,
                    backend: None,
                    agent_type: None,
                    name: None,
                },
            ),
        }
    }
}

/// The optional text, unless it is blank.
pub open spec fn not_blank(s: Option<Seq<char>>) -> Option<Seq<char>> {
    match s {
        Some(t) => if text::trimmed(t).len() == 0 {
            None
        } else {
            Some(t)
        },
        None => None,
    }
}

fn copy_not_blank(s: &Option<String>) -> (r: Option<String>)
    ensures
        types::opt_text(r) == not_blank(types::opt_text(*s)),
{
    match s {
        Some(t) => if trim(t.as_str()).as_str().is_empty() {
            None
        } else {
            Some(t.clone())
        },
        None => None,
    }
}

/// The runtime that an older choice names: its backend, or else its agent type.
pub open spec fn legacy_backend_of(s: SettingView) -> Option<Seq<char>> {
    match not_blank(s.backend) {
        Some(b) => Some(b),
        None => not_blank(s.agent_type),
    }
}

/// The runtime that an older choice names.
pub fn legacy_backend(setting: &AssistantSetting) -> (r: Option<String>)
    ensures
        types::opt_text(r) == legacy_backend_of(setting@),
{
    match copy_not_blank(&setting.backend) {
        Some(b) => Some(b),
        None => copy_not_blank(&setting.agent_type),
    }
}

impl ChannelSettingsService {
    /// The assistant that an older choice stands for: the first generated one on
    /// the runtime that it names. `backends` gives the runtime of each assistant.
    pub fn resolve_assistant_identity_for_legacy_binding(
        setting: &AssistantSetting,
        definitions: &Vec<AssistantDefinition>,
        backends: &Vec<String>,
    ) -> (r: Option<String>)
        requires
            definitions.len() == backends.len(),
        ensures
            types::opt_text(r) == match legacy_backend_of(setting@) {
                Some(b) => assistant_on(definitions@, text::texts(backends@), true, b),
                None => None,
            },
    {
        match legacy_backend(setting) {
            None => None,
            Some(b) => find_assistant(definitions, backends, true, b.as_str()),
        }
    }
}

/// The assistant that a choice names by itself: its assistant, or else its
/// custom agent.
pub open spec fn named_assistant(s: SettingView) -> Option<Seq<char>> {
    match not_blank(s.assistant_id) {
        Some(id) => Some(id),
        None => not_blank(s.custom_agent_id),
    }
}

/// The assistant that a choice names by itself.
pub fn explicit_assistant_id(setting: &AssistantSetting) -> (r: Option<String>)
    ensures
        types::opt_text(r) == named_assistant(setting@),
{
    match copy_not_blank(&setting.assistant_id) {
        Some(id) => Some(id),
        None => copy_not_blank(&setting.custom_agent_id),
    }
}

/// A choice in the form in which it is shown: by its assistant alone where that
/// is known, and as it is where it is not. `legacy` is the assistant that the
/// older parts of the choice stand for.
pub open spec fn shown_setting(s: SettingView, legacy: Option<Seq<char>>) -> SettingView {
    match (named_assistant(s), legacy) {
        (Some(id), _) => bare_setting(id, s.name),
        (None, Some(id)) => bare_setting(id, s.name),
        (None, None) => s,
    }
}

impl ChannelSettingsService {
    /// A choice in the form in which it is shown.
    pub fn normalize_channel_assistant_setting_for_response(setting: AssistantSetting, legacy: Option<String>) -> (r:
        AssistantSetting)
        ensures
            r@ == shown_setting(setting@, types::opt_text(legacy)),
    {
        let id = match explicit_assistant_id(&setting) {
            Some(id) => Some(id),
            None => legacy,
        };
        match id {
            Some(id) => AssistantSetting {
                assistant_id: Some(id),
                custom_agent_id: None,
                backend: None,
                agent_type: None,
                name: setting.name,
            },
            None => setting,
        }
    }
}

/// A choice in the form in which it is stored.
pub fn normalize_channel_assistant_setting_for_write(assistant_id: &str, name: &Option<String>) -> (r: AssistantSetting)
    ensures
        r@ == bare_setting(text::trimmed(assistant_id@), types::opt_text(*name)),
{
    AssistantSetting {
        assistant_id: Some(trim(assistant_id)),
        custom_agent_id: None,
        backend: None,
        agent_type: None,
        name: copy_opt(name),
    }
}

proof fn lemma_member_names_differ()
    ensures
        "assistant_id"@ != "name"@,
        "assistant_id"@ != "custom_agent_id"@,
        "assistant_id"@ != "backend"@,
        "assistant_id"@ != "agent_type"@,
        "name"@ != "custom_agent_id"@,
        "name"@ != "backend"@,
        "name"@ != "agent_type"@,
        "id"@ != "use_model"@,
{
    reveal_strlit("assistant_id");
    reveal_strlit("name");
    reveal_strlit("custom_agent_id");
    reveal_strlit("backend");
    reveal_strlit("agent_type");
    reveal_strlit("id");
    reveal_strlit("use_model");
    assert("assistant_id"@.len() == 12);
    assert("name"@.len() == 4);
    assert("custom_agent_id"@.len() == 15);
    assert("backend"@.len() == 7);
    assert("agent_type"@.len() == 10);
    assert("id"@.len() == 2);
    assert("use_model"@.len() == 9);
}

impl ChannelSettingsService {
    /// The key and the text under which the assistant of a platform is stored. What
    /// is read from the text is the choice that went in, and nothing else stands in
    /// it.
    pub fn set_assistant_setting(platform: PluginType, assistant_id: &str, name: &Option<String>) -> (r: (String, String))
        ensures
            r.0@ == agent_key_text(platform),
            stored_setting(r.1@) == Some(bare_setting(text::trimmed(assistant_id@), types::opt_text(*name))),
            forall|key: Seq<char>| #[trigger]
                json::member_text(json::json_node(r.1@), key) is Some ==> key == "assistant_id"@ || key == "name"@,
            json::member_text(json::json_node(r.1@), "name"@) is Some <==> name is Some,
    {
        let setting = normalize_channel_assistant_setting_for_write(assistant_id, name);
        let mut members: Vec<(String, String)> = Vec::new();
        members.push(("assistant_id".to_owned(), types::copy_or_empty(&setting.assistant_id)));
        if let Some(n) = setting.name {
            members.push(("name".to_owned(), n));
        }
        proof {
            lemma_member_names_differ();
            reveal_with_fuel(json::pair_value, 3);
            let views = json::text_pairs(members@);
            assert(views[0] == ("assistant_id"@, text::trimmed(assistant_id@)));
            assert(name is Some ==> views.len() == 2 && views.skip(1)[0] == ("name"@, types::opt_text(*name)->0));
            assert(name is None ==> views.skip(1).len() == 0);
            assert(views.skip(1).skip(1).len() == 0 || views.len() == 1);
        }
        let payload = object_text(&members);
        (agent_key(platform), payload)
    }

    /// The key and the text under which the default model of a platform is stored.
    /// What is read from the text is the model that went in, and nothing else stands
    /// in it.
    pub fn set_model_setting(platform: PluginType, model: &DefaultModelSetting) -> (r: (String, String))
        ensures
            r.0@ == model_key_text(platform),
            model_stored_in(r.1@) == Some((model.id@, model.use_model@)),
            forall|key: Seq<char>| #[trigger]
                json::member_text(json::json_node(r.1@), key) is Some ==> key == "id"@ || key == "use_model"@,
    {
        let mut members: Vec<(String, String)> = Vec::new();
        members.push(("id".to_owned(), model.id.clone()));
        members.push(("use_model".to_owned(), model.use_model.clone()));
        proof {
            lemma_member_names_differ();
            reveal_with_fuel(json::pair_value, 3);
            let views = json::text_pairs(members@);
            assert(views[0] == ("id"@, model.id@));
            assert(views.skip(1)[0] == ("use_model"@, model.use_model@));
        }
        let payload = object_text(&members);
        (model_key(platform), payload)
    }
}

// ---------------------------------------------------------------------------
// All settings of a platform
// ---------------------------------------------------------------------------

/// The stored choices of a platform.
#[derive(Debug, PartialEq, Eq)]
pub struct PlatformPrefs {
    pub assistant: Option<AssistantSetting>,
    pub default_model: Option<DefaultModelSetting>,
}

/// What is shown of a platform.
#[derive(Debug, PartialEq, Eq)]
pub struct PlatformSettings {
    pub platform: String,
    pub assistant: Option<AssistantSetting>,
    pub default_model: Option<DefaultModelSetting>,
}

/// The assistant that is shown: the stored choice, or else `fallback`.
pub open spec fn shown_choice(
    stored: Option<SettingView>,
    legacy: Option<Seq<char>>,
    fallback: Option<Seq<char>>,
) -> Option<SettingView> {
    match (stored, fallback) {
        (Some(s), _) => Some(shown_setting(s, legacy)),
        (None, Some(id)) => Some(bare_setting(id, None)),
        (None, None) => None,
    }
}

/// The assistant among stored pairs of key and text: the last that can be read.
pub open spec fn prefs_assistant(prefs: Seq<(Seq<char>, Seq<char>)>, platform: PluginType) -> Option<SettingView>
    decreases prefs.len(),
{
    if prefs.len() == 0 {
        None
    } else {
        let (key, value) = prefs.last();
        let earlier = prefs_assistant(prefs.drop_last(), platform);
        if key == agent_key_text(platform) && stored_setting(value) is Some {
            stored_setting(value)
        } else {
            earlier
        }
    }
}

/// The default model among stored pairs of key and text: the last.
pub open spec fn prefs_model(prefs: Seq<(Seq<char>, Seq<char>)>, platform: PluginType) -> Option<(Seq<char>, Seq<char>)>
    decreases prefs.len(),
{
    if prefs.len() == 0 {
        None
    } else {
        let (key, value) = prefs.last();
        if key != agent_key_text(platform) && key == model_key_text(platform) {
            model_stored_in(value)
        } else {
            prefs_model(prefs.drop_last(), platform)
        }
    }
}

impl ChannelSettingsService {
    /// The stored choices of a platform.
    pub fn stored_choices(prefs: &Vec<(String, String)>, platform: PluginType) -> (r: PlatformPrefs)
        ensures
            opt_setting(r.assistant) == prefs_assistant(json::text_pairs(prefs@), platform),
            opt_model_setting(r.default_model) == prefs_model(json::text_pairs(prefs@), platform),
    {
        let ghost views = json::text_pairs(prefs@);
        let key_agent = agent_key(platform);
        let key_model = model_key(platform);
        let mut assistant: Option<AssistantSetting> = None;
        let mut default_model: Option<DefaultModelSetting> = None;
        let mut i: usize = 0;
        while i < prefs.len()
            invariant
                i <= prefs.len(),
                views == json::text_pairs(prefs@),
                key_agent@ == agent_key_text(platform),
                key_model@ == model_key_text(platform),
                opt_setting(assistant) == prefs_assistant(views.take(i as int), platform),
                opt_model_setting(default_model) == prefs_model(views.take(i as int), platform),
            decreases prefs.len() - i,
        {
            assert(views.take(i + 1).drop_last() =~= views.take(i as int));
            assert(views.take(i + 1).last() == views[i as int]);
            if str_eq(prefs[i].0.as_str(), key_agent.as_str()) {
                if let Some(parsed) = parse_channel_assistant_setting(prefs[i].1.as_str()) {
                    assistant = Some(parsed);
                }
            } else if str_eq(prefs[i].0.as_str(), key_model.as_str()) {
                default_model = parse_channel_model_setting(prefs[i].1.as_str());
            }
            i += 1;
        }
        assert(views.take(views.len() as int) =~= views);
        PlatformPrefs { assistant, default_model }
    }

    /// The settings of a platform in the form in which they are shown: the stored
    /// choice of an assistant, or else `fallback`, and the stored model. `legacy`
    /// is the assistant that the older parts of the stored choice stand for.
    pub fn get_platform_settings(
        prefs: &Vec<(String, String)>,
        platform: PluginType,
        legacy: Option<String>,
        fallback: Option<String>,
    ) -> (r: PlatformSettings)
        ensures
            r.platform@ == types::plugin_type_text(platform),
            opt_setting(r.assistant) == shown_choice(
                prefs_assistant(json::text_pairs(prefs@), platform),
                types::opt_text(legacy),
                types::opt_text(fallback),
            ),
            opt_model_setting(r.default_model) == prefs_model(json::text_pairs(prefs@), platform),
    {
        let choices = Self::stored_choices(prefs, platform);
        let assistant = match choices.assistant {
            Some(setting) => Some(Self::normalize_channel_assistant_setting_for_response(setting, legacy)),
            None => Self::resolve_default_channel_assistant_setting(fallback),
        };
        PlatformSettings {
            platform: platform.as_str().to_owned(),
            assistant,
            default_model: choices.default_model,
        }
    }

    /// The assistant of a platform with this stored text, in the form in which it
    /// is shown: `fallback` where nothing is stored, and none where the stored
    /// text cannot be read.
    pub fn get_assistant_setting(stored: Option<&str>, legacy: Option<String>, fallback: Option<String>) -> (r: Option<
        AssistantSetting,
    >)
        ensures
            opt_setting(r) == match stored {
                None => shown_choice(None, types::opt_text(legacy), types::opt_text(fallback)),
                Some(value) => match stored_setting(value@) {
                    Some(s) => Some(shown_setting(s, types::opt_text(legacy))),
                    None => None,
                },
            },
    {
        match stored {
            None => Self::resolve_default_channel_assistant_setting(fallback),
            Some(value) => match parse_channel_assistant_setting(value) {
                Some(setting) => Some(Self::normalize_channel_assistant_setting_for_response(setting, legacy)),
                None => None,
            },
        }
    }
}

// ---------------------------------------------------------------------------
// Laws
// ---------------------------------------------------------------------------

/// The backend survives for the types that are found by it and for no other.
pub proof fn law_backend_survives(backend: Seq<char>)
    ensures
        carries_backend(agent_type_of(backend)) ==> backend_config(backend).backend == Some(backend),
        !carries_backend(agent_type_of(backend)) ==> backend_config(backend).backend is None,
{
}

/// A choice that is stored reads back, once shown, as the same assistant.
pub proof fn law_written_setting_is_shown(assistant_id: Seq<char>, name: Option<Seq<char>>, legacy: Option<Seq<char>>)
    requires
        text::trimmed(assistant_id).len() > 0,
    ensures
        shown_setting(bare_setting(text::trimmed(assistant_id), name), legacy) == bare_setting(
            text::trimmed(assistant_id),
            name,
        ),
{
    text::lemma_trim_is_stable(assistant_id);
}

/// No two stored choices share a key: neither those of two platforms nor the two
/// of one platform.
pub proof fn law_keys_differ(a: PluginType, b: PluginType)
    ensures
        agent_key_text(a) == agent_key_text(b) ==> a == b,
        model_key_text(a) == model_key_text(b) ==> a == b,
        agent_key_text(a) != model_key_text(b),
{
    let (m, n) = (types::plugin_type_text(a), types::plugin_type_text(b));
    let (head, tail, other) = ("assistant."@, ".agent"@, ".defaultModel"@);
    reveal_strlit(".agent");
    reveal_strlit(".defaultModel");
    assert(tail.last() == 't');
    assert(other.last() == 'l');
    assert(agent_key_text(a).last() == tail.last());
    assert(model_key_text(b).last() == other.last());
    if agent_key_text(a) == agent_key_text(b) {
        assert(agent_key_text(a).len() == head.len() + m.len() + tail.len());
        assert(agent_key_text(b).len() == head.len() + n.len() + tail.len());
        assert(m =~= agent_key_text(a).subrange(head.len() as int, (head.len() + m.len()) as int));
        assert(n =~= agent_key_text(b).subrange(head.len() as int, (head.len() + n.len()) as int));
        types::law_plugin_type_names_differ(a, b);
    }
    if model_key_text(a) == model_key_text(b) {
        assert(model_key_text(a).len() == head.len() + m.len() + other.len());
        assert(model_key_text(b).len() == head.len() + n.len() + other.len());
        assert(m =~= model_key_text(a).subrange(head.len() as int, (head.len() + m.len()) as int));
        assert(n =~= model_key_text(b).subrange(head.len() as int, (head.len() + n.len()) as int));
        types::law_plugin_type_names_differ(a, b);
    }
}

/// What was stored last for a platform is what is read of it, and storing it
/// changes no other choice: neither the other one of the platform nor those of
/// other platforms.
pub proof fn law_latest_choice_is_read(
    prefs: Seq<(Seq<char>, Seq<char>)>,
    platform: PluginType,
    other: PluginType,
    value: Seq<char>,
)
    ensures
        stored_setting(value) is Some ==> prefs_assistant(prefs.push((agent_key_text(platform), value)), platform)
            == stored_setting(value),
        prefs_model(prefs.push((model_key_text(platform), value)), platform) == model_stored_in(value),
        prefs_model(prefs.push((agent_key_text(platform), value)), other) == prefs_model(prefs, other),
        prefs_assistant(prefs.push((model_key_text(platform), value)), other) == prefs_assistant(prefs, other),
        other != platform ==> prefs_assistant(prefs.push((agent_key_text(platform), value)), other) == prefs_assistant(
            prefs,
            other,
        ),
        other != platform ==> prefs_model(prefs.push((model_key_text(platform), value)), other) == prefs_model(
            prefs,
            other,
        ),
{
    law_keys_differ(platform, other);
    law_keys_differ(other, platform);
    law_keys_differ(platform, platform);
    let agent = prefs.push((agent_key_text(platform), value));
    let model = prefs.push((model_key_text(platform), value));
    assert(agent.drop_last() =~= prefs);
    assert(model.drop_last() =~= prefs);
}

/// A default model that is stored is the model that agents are started with.
pub proof fn law_written_model_is_used(id: Seq<char>, use_model: Seq<char>)
    ensures
        model_config_of(Some(id), Some(use_model)) == Some(
            ModelConfigView { provider_id: id, model: use_model, use_model: Some(use_model) },
        ),
{
}

/// Where a generated assistant runs on the default runtime, a generated one
/// answers by default, whatever else runs there.
pub proof fn law_generated_assistants_go_first(definitions: Seq<AssistantDefinition>, backends: Seq<Seq<char>>)
    requires
        assistant_on(definitions, backends, true, DEFAULT_AGENT_TYPE@) is Some,
    ensures
        default_assistant(definitions, backends) == assistant_on(definitions, backends, true, DEFAULT_AGENT_TYPE@),
{
}

/// Showing a shown choice changes nothing.
pub proof fn law_showing_is_stable(s: SettingView, legacy: Option<Seq<char>>)
    requires
        legacy is Some ==> text::trimmed(legacy->0).len() > 0,
    ensures
        shown_setting(shown_setting(s, legacy), legacy) == shown_setting(s, legacy),
{
}

/// Each platform has its choices under keys of its own name.
pub proof fn law_keys_name_their_platform(platform: PluginType)
    ensures
        agent_key_text(platform) == "assistant."@ + types::plugin_type_text(platform) + ".agent"@,
        model_key_text(platform) == "assistant."@ + types::plugin_type_text(platform) + ".defaultModel"@,
{
}

/// A backend is run by the runtime of its name where there is one, by `aionrs` under
/// either of its names, and by `acp` otherwise.
pub proof fn law_backend_has_its_runtime(backend: Seq<char>)
    ensures
        agent_type_of(backend) == "aionrs"@ <==> backend == "aionrs"@ || backend == "aion-cli"@,
        agent_type_of(backend) == "antigravity"@ <==> backend == "antigravity"@,
        agent_type_of(backend) == "openclaw-gateway"@ <==> backend == "openclaw-gateway"@,
        agent_type_of(backend) == "nanobot"@ <==> backend == "nanobot"@,
        agent_type_of(backend) == "remote"@ <==> backend == "remote"@,
        agent_type_of(backend) == "acp"@ ==> backend_config(backend).backend == Some(backend),
        agent_type_of(backend) == "aionrs"@ ==> backend_config(backend).backend is None,
        backend_config(backend).agent_type == agent_type_of(backend),
{
    reveal_strlit("aionrs");
    reveal_strlit("aion-cli");
    reveal_strlit("antigravity");
    reveal_strlit("openclaw-gateway");
    reveal_strlit("nanobot");
    reveal_strlit("remote");
    reveal_strlit("acp");
    assert("aionrs"@.len() == 6 && "aion-cli"@.len() == 8 && "antigravity"@.len() == 11
        && "openclaw-gateway"@.len() == 16 && "nanobot"@.len() == 7 && "remote"@.len() == 6
        && "acp"@.len() == 3 && "aionrs"@[0] == 'a' && "remote"@[0] == 'r');
}

/// An assistant that is chosen answers. Without one the agent type of the choice does,
/// with its backend where it carries one, and without that the runtime of the backend;
/// where nothing is chosen, `aionrs` answers.
pub proof fn law_choice_decides_who_answers(s: SettingView)
    ensures
        s.assistant_id is Some ==> plan_of(Some(s)) == PlanView::ResolveAssistant(s.assistant_id->0),
        s.assistant_id is None && s.agent_type is Some ==> (plan_of(Some(s)) matches PlanView::Ready(c) && c.agent_type
            == s.agent_type->0 && (c.backend == s.backend || (c.backend is None && !carries_backend(c.agent_type)))),
        s.assistant_id is None && s.agent_type is Some && (s.agent_type->0 == "acp"@ || s.agent_type->0
            == "antigravity"@) ==> (plan_of(Some(s)) matches PlanView::Ready(c) && c.backend == s.backend),
        s.assistant_id is None && s.agent_type is None && s.backend is Some ==> (plan_of(
            Some(s),
        ) matches PlanView::Ready(c) && c.agent_type == agent_type_of(s.backend->0)),
        plan_of(None) matches PlanView::Ready(c) && c.agent_type == "aionrs"@ && c.backend is None,
{
}

/// A model is configured as it is stored: its provider and its name. Without either there
/// is none.
pub proof fn law_model_is_what_is_stored(id: Option<Seq<char>>, use_model: Option<Seq<char>>)
    ensures
        ({
            let m = model_config_of(id, use_model);
            &&& m is None <==> (id is None || id->0.len() == 0) && use_model is None
            &&& m is Some && id is Some ==> m->0.provider_id == id->0
            &&& m is Some ==> m->0.use_model == use_model
            &&& m is Some && use_model is Some ==> m->0.model == use_model->0
        }),
        stored_model_setting(id, use_model) is Some <==> id is Some && use_model is Some,
        stored_model_setting(id, use_model) is Some ==> stored_model_setting(id, use_model) == Some(
            (id->0, use_model->0),
        ),
{
}

/// A choice names its assistant before its custom agent, and an older one its backend
/// before its agent type; what is blank counts as missing.
pub proof fn law_choice_is_read_in_order(s: SettingView)
    ensures
        (s.assistant_id is Some && text::trimmed(s.assistant_id->0).len() > 0) ==> named_assistant(s) == s.assistant_id,
        s.assistant_id is None && s.custom_agent_id is Some && text::trimmed(s.custom_agent_id->0).len() > 0
            ==> named_assistant(s) == s.custom_agent_id,
        s.assistant_id is None && s.custom_agent_id is None ==> named_assistant(s) is None,
        (s.backend is Some && text::trimmed(s.backend->0).len() > 0) ==> legacy_backend_of(s) == s.backend,
        s.backend is None && s.agent_type is Some && text::trimmed(s.agent_type->0).len() > 0 ==> legacy_backend_of(s)
            == s.agent_type,
        s.backend is None && s.agent_type is None ==> legacy_backend_of(s) is None,
{
}

/// What is shown of a choice is its assistant, or the one that its older parts stand for,
/// under its name and with nothing else; where there is neither, the choice as it is.
pub proof fn law_shown_choice_is_the_assistant(s: SettingView, legacy: Option<Seq<char>>, fallback: Option<Seq<char>>)
    ensures
        ({
            let shown = shown_setting(s, legacy);
            &&& shown.name == s.name
            &&& named_assistant(s) is Some ==> shown.assistant_id == named_assistant(s)
            &&& named_assistant(s) is None && legacy is Some ==> shown.assistant_id == legacy
            &&& named_assistant(s) is Some || legacy is Some ==> shown.backend is None && shown.agent_type is None
                && shown.custom_agent_id is None
            &&& named_assistant(s) is None && legacy is None ==> shown == s
        }),
        shown_choice(Some(s), legacy, fallback) == Some(shown_setting(s, legacy)),
        fallback is Some ==> (shown_choice(None, legacy, fallback) matches Some(x) && x.assistant_id == fallback),
        fallback is None ==> shown_choice(None, legacy, fallback) is None,
{
}

/// A change to an assistant puts its own agent in the place of the assistant's; without
/// one the assistant keeps its agent.
pub proof fn law_overlay_goes_first(definition: AssistantDefinition, overlay: AssistantOverlay)
    ensures
        overlay.assistant_definition_id@ == definition.id@ && overlay.agent_id_override is Some ==> effective_agent(
            definition,
            seq![overlay],
        ) == overlay.agent_id_override->0@,
        overlay.assistant_definition_id@ != definition.id@ ==> effective_agent(definition, seq![overlay])
            == definition.agent_id@,
        effective_agent(definition, Seq::empty()) == definition.agent_id@,
{
    assert(seq![overlay].skip(1).len() == 0);
    assert(overlay_index(seq![overlay].skip(1), definition.id@) == 0);
}

/// An older choice that is a bare word names a backend, and the runtime of that backend.
pub proof fn law_bare_word_is_a_backend(
    raw: Seq<char>,
    a: Option<Seq<char>>,
    c: Option<Seq<char>>,
    b: Option<Seq<char>>,
    t: Option<Seq<char>>,
    n: Option<Seq<char>>,
)
    ensures
        setting_of(Some(json::NodeView::Text(raw)), a, c, b, t, n) matches Some(s) && s.backend == Some(raw)
            && s.agent_type == Some(agent_type_of(raw)) && s.assistant_id is None && s.custom_agent_id is None,
        setting_of(None, a, c, b, t, n) is None,
        forall|members: Seq<(Seq<char>, Seq<char>)>|
            (#[trigger] setting_of(Some(json::NodeView::Object(members)), a, c, b, t, n)) == Some(
                SettingView { assistant_id: a, custom_agent_id: c, backend: b, agent_type: t, name: n },
            ),
{
}

/// A stored model is read from its two members: its provider and its name.
pub proof fn law_model_is_read_by_its_members(value: Seq<char>, id: Seq<char>, use_model: Seq<char>)
    requires
        json::json_member(value, "id"@) == Some(json::NodeView::Text(id)),
        json::json_member(value, "use_model"@) == Some(json::NodeView::Text(use_model)),
    ensures
        model_stored_in(value) == Some((id, use_model)),
        model_used_with(value) == Some(
            ModelConfigView { provider_id: id, model: use_model, use_model: Some(use_model) },
        ),
{
}

/// A stored choice is read from its members, each under its own name.
pub proof fn law_choice_is_read_by_its_members(value: Seq<char>)
    requires
        json::json_node(value) is Some,
        json::json_node(value)->0 is Object,
    ensures
        stored_setting(value) matches Some(s) && {
            &&& s.assistant_id == json::node_str(json::json_member(value, "assistant_id"@))
            &&& s.custom_agent_id == json::node_str(json::json_member(value, "custom_agent_id"@))
            &&& s.backend == json::node_str(json::json_member(value, "backend"@))
            &&& s.agent_type == json::node_str(json::json_member(value, "agent_type"@))
            &&& s.name == json::node_str(json::json_member(value, "name"@))
        },
{
}

/// Where nothing is chosen the built-in agent answers.
pub proof fn law_built_in_agent_is_the_default()
    ensures
        default_config().agent_type == "aionrs"@,
        default_config().backend is None,
{
}

/// The first assistant on a backend answers there, the first generated one where only those
/// count.
pub proof fn law_first_assistant_answers(
    definitions: Seq<AssistantDefinition>,
    backends: Seq<Seq<char>>,
    generated_only: bool,
    backend: Seq<char>,
    at: int,
)
    requires
        0 <= at < definitions.len(),
        definitions.len() == backends.len(),
        backends[at] == backend,
        generated_only ==> definitions[at].source@ == "generated"@,
        forall|i: int|
            0 <= i < at ==> #[trigger] backends[i] != backend || (generated_only && definitions[i].source@
                != "generated"@),
    ensures
        assistant_on(definitions, backends, generated_only, backend) == Some(definitions[at].assistant_id@),
    decreases at,
{
    if at > 0 {
        let rest = definitions.skip(1);
        let others = backends.skip(1);
        assert(backends[0] != backend || (generated_only && definitions[0].source@ != "generated"@));
        assert forall|i: int| 0 <= i < at - 1 implies #[trigger] others[i] != backend || (generated_only
            && rest[i].source@ != "generated"@) by {
            assert(others[i] == backends[i + 1]);
        }
        law_first_assistant_answers(rest, others, generated_only, backend, at - 1);
        let j = assistant_index(rest, others, generated_only, backend) as int;
        assert(rest[j] == definitions[j + 1]);
    }
}

} // verus!
