//! From a channel session to a conversation with an agent, and from the agent's
//! events back to messages.
use vstd::prelude::*;
use vstd::string::*;
use vstd::utf8::*;

use crate::channel_settings;
use crate::channel_settings::{
    resolved_model_to_provider, AssistantSetting, ProviderWithModel, ResolvedAgentConfig, ResolvedModelConfig,
};
use crate::error::ChannelError;
use crate::text;
use crate::text::{join, str_eq, trim};
use crate::types;
use crate::types::{
    button, copy_opt, text_message, ActionButton, AssistantSession, OutgoingMessageType, PluginType,
    UnifiedOutgoingMessage,
};

verus! {

/// What is said of an agent type that is no longer started.
pub const DEPRECATED_AGENT_TYPE_MESSAGE: &'static str = "This agent type is no longer supported for new conversations.";

/// Milliseconds between two edits of a message that is still growing.
pub const STREAM_THROTTLE_INTERVAL_MS: u64 = 500;

/// Milliseconds that a tool waits for its confirmation.
pub const TOOL_CONFIRM_TIMEOUT_MS: u64 = 15_000;

/// The runtimes that a conversation can have.
#[derive(Clone, Copy, Debug, PartialEq, Eq, Structural)]
pub enum AgentType {
    Acp,
    Gemini,
    OpenclawGateway,
    Nanobot,
    Remote,
    Aionrs,
    Antigravity,
}

/// Where a conversation comes from.
#[derive(Clone, Copy, Debug, PartialEq, Eq, Structural)]
pub enum ConversationSource {
    Telegram,
    Lark,
    Dingtalk,
    Weixin,
    Aionui,
}

/// Where the conversations of a platform come from; platforms without a source
/// of their own count as the application's.
pub open spec fn source_of(platform: PluginType) -> ConversationSource {
    match platform {
        PluginType::Telegram => ConversationSource::Telegram,
        PluginType::Lark => ConversationSource::Lark,
        PluginType::Dingtalk => ConversationSource::Dingtalk,
        PluginType::Weixin => ConversationSource::Weixin,
        _ => ConversationSource::Aionui,
    }
}

/// Where the conversations of a platform come from.
pub fn platform_to_source(platform: PluginType) -> (r: ConversationSource)
    ensures
        r == source_of(platform),
{
    match platform {
        PluginType::Telegram => ConversationSource::Telegram,
        PluginType::Lark => ConversationSource::Lark,
        PluginType::Dingtalk => ConversationSource::Dingtalk,
        PluginType::Weixin => ConversationSource::Weixin,
        PluginType::Slack | PluginType::Discord => ConversationSource::Aionui,
    }
}

/// The runtime of a name; the common agent protocol where the name is unknown.
pub open spec fn named_agent_type(s: Seq<char>) -> AgentType {
    if s == "gemini"@ {
        AgentType::Gemini
    } else if s == "openclaw-gateway"@ {
        AgentType::OpenclawGateway
    } else if s == "nanobot"@ {
        AgentType::Nanobot
    } else if s == "remote"@ {
        AgentType::Remote
    } else if s == "aionrs"@ {
        AgentType::Aionrs
    } else if s == "antigravity"@ {
        AgentType::Antigravity
    } else {
        AgentType::Acp
    }
}

/// Whether a runtime is no longer started.
pub open spec fn deprecated_runtime(t: AgentType) -> bool {
    t == AgentType::Gemini || t == AgentType::OpenclawGateway || t == AgentType::Nanobot || t == AgentType::Remote
}

impl AgentType {
    /// Whether this runtime is no longer started.
    pub fn is_deprecated_runtime(&self) -> (r: bool)
        ensures
            r == deprecated_runtime(*self),
    {
        matches!(self, AgentType::Gemini | AgentType::OpenclawGateway | AgentType::Nanobot | AgentType::Remote)
    }
}

/// The runtime of a name, where it is still started.
pub fn parse_agent_type(s: &str) -> (r: Result<AgentType, ChannelError>)
    ensures
        match r {
            Ok(t) => t == named_agent_type(s@) && !deprecated_runtime(t),
            Err(e) => deprecated_runtime(named_agent_type(s@)) && e@ == crate::error::ErrorView::InvalidConfig(
                DEPRECATED_AGENT_TYPE_MESSAGE@,
            ),
        },
{
    let agent_type = if str_eq(s, "gemini") {
        AgentType::Gemini
    } else if str_eq(s, "openclaw-gateway") {
        AgentType::OpenclawGateway
    } else if str_eq(s, "nanobot") {
        AgentType::Nanobot
    } else if str_eq(s, "remote") {
        AgentType::Remote
    } else if str_eq(s, "aionrs") {
        AgentType::Aionrs
    } else if str_eq(s, "antigravity") {
        AgentType::Antigravity
    } else {
        AgentType::Acp
    };
    if agent_type.is_deprecated_runtime() {
        Err(ChannelError::InvalidConfig(DEPRECATED_AGENT_TYPE_MESSAGE.to_owned()))
    } else {
        Ok(agent_type)
    }
}

// ---------------------------------------------------------------------------
// Names of conversations
// ---------------------------------------------------------------------------

/// The short name of a platform.
pub open spec fn short_name(platform: PluginType) -> Seq<char> {
    match platform {
        PluginType::Telegram => "tg"@,
        PluginType::Lark => "lark"@,
        PluginType::Dingtalk => "ding"@,
        PluginType::Weixin => "wx"@,
        PluginType::Slack => "slack"@,
        PluginType::Discord => "discord"@,
    }
}

/// How many bytes of a chat id its short form has.
pub open spec fn short_chat_len(chat_id: Seq<char>) -> int {
    let len = encode_utf8(chat_id).len();
    if len < 8 {
        len as int
    } else {
        8
    }
}

/// Whether the short form of a chat id ends between two characters.
pub open spec fn chat_id_shortens(chat_id: Option<Seq<char>>) -> bool {
    match chat_id {
        Some(c) => is_char_boundary(encode_utf8(c), short_chat_len(c)),
        None => true,
    }
}

/// The first eight bytes of a chat id, or all where there are fewer.
pub open spec fn short_chat_id(chat_id: Seq<char>) -> Seq<char> {
    decode_utf8(encode_utf8(chat_id).subrange(0, short_chat_len(chat_id)))
}

/// The parts of the name of a conversation.
pub open spec fn name_parts(
    platform: PluginType,
    agent_type: Seq<char>,
    backend: Option<Seq<char>>,
    chat_id: Option<Seq<char>>,
) -> Seq<Seq<char>> {
    let start = seq![short_name(platform)];
    let typed = if agent_type.len() == 0 {
        start
    } else {
        start.push(agent_type)
    };
    let backed = if agent_type == "acp"@ && backend is Some {
        typed.push(backend->0)
    } else {
        typed
    };
    match chat_id {
        Some(c) => backed.push(short_chat_id(c)),
        None => backed,
    }
}

/// The name of a conversation: platform, agent type, backend and chat, as far
/// as they are known, with dashes between them.
pub open spec fn conversation_name(
    platform: PluginType,
    agent_type: Seq<char>,
    backend: Option<Seq<char>>,
    chat_id: Option<Seq<char>>,
) -> Seq<char> {
    text::join_texts(name_parts(platform, agent_type, backend, chat_id), "-"@)
}

/// The name of a conversation.
pub fn channel_conversation_name(
    platform: PluginType,
    agent_type: &str,
    backend: Option<&str>,
    chat_id: Option<&str>,
) -> (r: String)
    requires
        chat_id_shortens(types::opt_str(chat_id)),
    ensures
        r@ == conversation_name(platform, agent_type@, types::opt_str(backend), types::opt_str(chat_id)),
{
    let short = match platform {
        PluginType::Telegram => "tg",
        PluginType::Lark => "lark",
        PluginType::Dingtalk => "ding",
        PluginType::Weixin => "wx",
        PluginType::Slack => "slack",
        PluginType::Discord => "discord",
    };
    let ghost goal = name_parts(platform, agent_type@, types::opt_str(backend), types::opt_str(chat_id));
    let mut parts: Vec<String> = Vec::new();
    parts.push(short.to_owned());
    if !agent_type.is_empty() {
        parts.push(agent_type.to_owned());
    }
    if str_eq(agent_type, "acp") {
        if let Some(b) = backend {
            parts.push(b.to_owned());
        }
    }
    if let Some(cid) = chat_id {
        let len: usize = cid.as_bytes().len();
        let end: usize = if len < 8 {
            len
        } else {
            8
        };
        let (head, _) = cid.split_at(end);
        proof {
            encode_utf8_decode_utf8(head@);
        }
        parts.push(head.to_owned());
    }
    assert(text::texts(parts@) =~= goal);
    join(&parts, "-")
}

// ---------------------------------------------------------------------------
// Conversations
// ---------------------------------------------------------------------------

/// What a conversation is told beside its name: nobody is there to confirm
/// tools, so they run by themselves.
#[derive(Debug, PartialEq, Eq)]
pub struct ChannelExtra {
    pub session_mode: String,
    pub backend: Option<String>,
    pub model: Option<ProviderWithModel>,
}

/// What a request for a conversation says.
#[derive(Debug, PartialEq, Eq)]
pub struct ConversationRequest {
    pub agent_type: Option<AgentType>,
    pub name: String,
    pub model: Option<ProviderWithModel>,
    pub assistant_id: Option<String>,
    pub source: ConversationSource,
    pub channel_chat_id: Option<String>,
    pub extra: ChannelExtra,
}

/// What an extra holds.
pub struct ExtraView {
    pub session_mode: Seq<char>,
    pub backend: Option<Seq<char>>,
    pub model: Option<channel_settings::ModelConfigView>,
}

/// What a request holds.
pub struct RequestView {
    pub agent_type: Option<AgentType>,
    pub name: Seq<char>,
    pub model: Option<channel_settings::ModelConfigView>,
    pub assistant_id: Option<Seq<char>>,
    pub source: ConversationSource,
    pub channel_chat_id: Option<Seq<char>>,
    pub extra: ExtraView,
}

/// What an optional provider holds.
pub open spec fn opt_provider(m: Option<ProviderWithModel>) -> Option<channel_settings::ModelConfigView> {
    match m {
        Some(p) => Some(p@),
        None => None,
    }
}

impl View for ChannelExtra {
    type V = ExtraView;

    open spec fn view(&self) -> ExtraView {
        ExtraView {
            session_mode: self.session_mode@,
            backend: types::opt_text(self.backend),
            model: opt_provider(self.model),
        }
    }
}

impl View for ConversationRequest {
    type V = RequestView;

    open spec fn view(&self) -> RequestView {
        RequestView {
            agent_type: self.agent_type,
            name: self.name@,
            model: opt_provider(self.model),
            assistant_id: types::opt_text(self.assistant_id),
            source: self.source,
            channel_chat_id: types::opt_text(self.channel_chat_id),
            extra: self.extra@,
        }
    }
}

/// The way between a chat and the conversation of its agent. It keeps nothing:
/// conversations, tasks and streams live outside.
pub struct ChannelMessageService;

/// The extra of a channel's conversation.
pub open spec fn channel_extra(backend: Option<Seq<char>>) -> ExtraView {
    ExtraView { session_mode: "yolo"@, backend, model: None }
}

impl ChannelMessageService {
    /// The extra of a channel's conversation.
    pub fn build_channel_extra(backend: Option<&str>) -> (r: ChannelExtra)
        ensures
            r@ == channel_extra(types::opt_str(backend)),
    {
        ChannelExtra {
            session_mode: "yolo".to_owned(),
            backend: match backend {
                Some(b) => Some(b.to_owned()),
                None => None,
            },
            model: None,
        }
    }
}

/// The name that the chosen assistant gives, where it gives one that is not
/// blank.
pub open spec fn assistant_name(setting: Option<channel_settings::SettingView>) -> Option<Seq<char>> {
    match setting {
        Some(s) => match s.name {
            Some(n) => types::nonempty(Some(text::trimmed(n))),
            None => None,
        },
        None => None,
    }
}

/// The assistant that is chosen.
pub open spec fn chosen_assistant(setting: Option<channel_settings::SettingView>) -> Option<Seq<char>> {
    match setting {
        Some(s) => s.assistant_id,
        None => None,
    }
}

/// The request for the conversation of a session. An assistant brings its own
/// agent; without one the agent is named. Only one runtime takes its model
/// directly, the others find it among the extras.
pub open spec fn conversation_request(
    platform: PluginType,
    agent: channel_settings::AgentConfigView,
    setting: Option<channel_settings::SettingView>,
    model: Option<channel_settings::ModelConfigView>,
    chat_id: Option<Seq<char>>,
) -> RequestView {
    let agent_type = named_agent_type(agent.agent_type);
    let assistant = chosen_assistant(setting);
    let provider = channel_settings::provider_of(model);
    let extra = channel_extra(
        if assistant is Some {
            None
        } else {
            agent.backend
        },
    );
    RequestView {
        agent_type: if assistant is Some {
            None
        } else {
            Some(agent_type)
        },
        name: match assistant_name(setting) {
            Some(n) => n,
            None => conversation_name(platform, agent.agent_type, agent.backend, chat_id),
        },
        model: if agent_type == AgentType::Aionrs {
            Some(provider)
        } else {
            None
        },
        assistant_id: assistant,
        source: source_of(platform),
        channel_chat_id: chat_id,
        extra: if agent_type == AgentType::Aionrs {
            extra
        } else {
            ExtraView { model: Some(provider), ..extra }
        },
    }
}

/// What an optional choice of an assistant holds.
pub open spec fn opt_setting_ref(setting: Option<&AssistantSetting>) -> Option<channel_settings::SettingView> {
    match setting {
        Some(s) => Some(s@),
        None => None,
    }
}

/// Whether a conversation takes its name from the chat: it is created, and no
/// assistant names it.
pub open spec fn named_after_chat(
    agent: channel_settings::AgentConfigView,
    setting: Option<channel_settings::SettingView>,
) -> bool {
    !deprecated_runtime(named_agent_type(agent.agent_type)) && assistant_name(setting) is None
}

fn given_name(setting: Option<&AssistantSetting>) -> (r: Option<String>)
    ensures
        types::opt_text(r) == assistant_name(opt_setting_ref(setting)),
{
    match setting {
        Some(s) => match &s.name {
            Some(n) => types::copy_nonempty(&Some(trim(n.as_str()))),
            None => None,
        },
        None => None,
    }
}

/// Whether a conversation takes its name from the chat. Its name then holds the
/// first bytes of the chat's id.
pub fn is_named_after_chat(agent: &ResolvedAgentConfig, setting: Option<&AssistantSetting>) -> (r: bool)
    ensures
        r == named_after_chat(agent@, opt_setting_ref(setting)),
{
    parse_agent_type(agent.agent_type.as_str()).is_ok() && given_name(setting).is_none()
}

impl ChannelMessageService {
    /// The request for the conversation of a session.
    pub fn create_conversation_for_session(
        platform: PluginType,
        agent: &ResolvedAgentConfig,
        setting: Option<&AssistantSetting>,
        model: Option<&ResolvedModelConfig>,
        session: &AssistantSession,
    ) -> (r: Result<ConversationRequest, ChannelError>)
        requires
            named_after_chat(agent@, opt_setting_ref(setting)) ==> chat_id_shortens(types::opt_text(session.chat_id)),
        ensures
            match r {
                Ok(q) => {
                    &&& !deprecated_runtime(named_agent_type(agent.agent_type@))
                    &&& q@ == conversation_request(
                        platform,
                        agent@,
                        opt_setting_ref(setting),
                        match model {
                            Some(m) => Some(m@),
                            None => None,
                        },
                        types::opt_text(session.chat_id),
                    )
                },
                Err(e) => {
                    &&& deprecated_runtime(named_agent_type(agent.agent_type@))
                    &&& e@ == crate::error::ErrorView::InvalidConfig(DEPRECATED_AGENT_TYPE_MESSAGE@)
                },
            },
    {
        let agent_type = match parse_agent_type(agent.agent_type.as_str()) {
            Ok(t) => t,
            Err(e) => {
                return Err(e);
            },
        };
        let assistant_id = match setting {
            Some(s) => copy_opt(&s.assistant_id),
            None => None,
        };
        let name_given = given_name(setting);
        let provider = resolved_model_to_provider(model);
        let mut extra = Self::build_channel_extra(
            if assistant_id.is_some() {
                None
            } else {
                types::borrow_opt(&agent.backend)
            },
        );
        let name = match name_given {
            Some(n) => n,
            None => channel_conversation_name(
                platform,
                agent.agent_type.as_str(),
                types::borrow_opt(&agent.backend),
                types::borrow_opt(&session.chat_id),
            ),
        };
        let top_level_model = if matches!(agent_type, AgentType::Aionrs) {
            Some(provider)
        } else {
            extra.model = Some(provider);
            None
        };
        Ok(
            ConversationRequest {
                agent_type: if assistant_id.is_some() {
                    None
                } else {
                    Some(agent_type)
                },
                name,
                model: top_level_model,
                assistant_id,
                source: platform_to_source(platform),
                channel_chat_id: copy_opt(&session.chat_id),
                extra,
            },
        )
    }
}

/// The error for an agent that is not there although it was just started.
pub open spec fn missing_task(conversation_id: Seq<char>) -> crate::error::ErrorView {
    crate::error::ErrorView::MessageSendFailed("Agent task missing after warmup for conversation "@ + conversation_id)
}

/// The error for an agent that is not there although it was just started.
pub fn missing_task_error(conversation_id: &str) -> (r: ChannelError)
    ensures
        r@ == missing_task(conversation_id@),
{
    let mut text = "Agent task missing after warmup for conversation ".to_owned();
    text.append(conversation_id);
    ChannelError::MessageSendFailed(text)
}

/// How far a text is on its way to the agent.
#[derive(Debug, PartialEq, Eq)]
pub enum SendStage {
    /// Nothing has been done.
    Start,
    /// The conversation is known.
    Conversation(String),
    /// The agent of the conversation has been started.
    Warm(String),
    /// The agent's events are being received.
    Subscribed(String),
}

/// How far a text is on its way to the agent.
pub enum StageView {
    Start,
    Conversation(Seq<char>),
    Warm(Seq<char>),
    Subscribed(Seq<char>),
}

impl View for SendStage {
    type V = StageView;

    open spec fn view(&self) -> StageView {
        match self {
            SendStage::Start => StageView::Start,
            SendStage::Conversation(id) => StageView::Conversation(id@),
            SendStage::Warm(id) => StageView::Warm(id@),
            SendStage::Subscribed(id) => StageView::Subscribed(id@),
        }
    }
}

/// What is done with the agent of a conversation.
#[derive(Debug, PartialEq, Eq)]
pub enum AgentStep {
    /// Start the agent of a conversation.
    Warmup(String),
    /// Receive the events of a conversation's agent.
    Subscribe(String),
    /// Hand the text to a conversation.
    Send { conversation_id: String, content: String },
}

/// What is done with the agent of a conversation.
pub enum AgentStepView {
    Warmup(Seq<char>),
    Subscribe(Seq<char>),
    Send { conversation_id: Seq<char>, content: Seq<char> },
}

impl View for AgentStep {
    type V = AgentStepView;

    open spec fn view(&self) -> AgentStepView {
        match self {
            AgentStep::Warmup(id) => AgentStepView::Warmup(id@),
            AgentStep::Subscribe(id) => AgentStepView::Subscribe(id@),
            AgentStep::Send { conversation_id, content } => AgentStepView::Send {
                conversation_id: conversation_id@,
                content: content@,
            },
        }
    }
}

/// What to do next on the way to the agent.
#[derive(Debug, PartialEq, Eq)]
pub enum SendStep {
    /// Create a conversation for the session.
    CreateConversation,
    /// Go on with the agent of the conversation.
    Agent(AgentStep),
}

/// What a step towards the agent holds.
pub enum SendStepView {
    CreateConversation,
    Agent(AgentStepView),
}

impl View for SendStep {
    type V = SendStepView;

    open spec fn view(&self) -> SendStepView {
        match self {
            SendStep::CreateConversation => SendStepView::CreateConversation,
            SendStep::Agent(step) => SendStepView::Agent(step@),
        }
    }
}

/// The next step of a text on its way to the agent, where `conversation` is the one
/// that the session has.
pub open spec fn next_send_step(conversation: Option<Seq<char>>, text: Seq<char>, stage: StageView) -> SendStepView {
    match stage {
        StageView::Start => match conversation {
            Some(id) => SendStepView::Agent(AgentStepView::Warmup(id)),
            None => SendStepView::CreateConversation,
        },
        StageView::Conversation(id) => SendStepView::Agent(AgentStepView::Warmup(id)),
        StageView::Warm(id) => SendStepView::Agent(AgentStepView::Subscribe(id)),
        StageView::Subscribed(id) => SendStepView::Agent(AgentStepView::Send { conversation_id: id, content: text }),
    }
}

impl ChannelMessageService {
    /// The next step of a text on its way to the agent. The agent's events are
    /// received before the text is handed over, so that none is missed.
    pub fn send_to_agent(session: &AssistantSession, text: &str, stage: &SendStage) -> (r: SendStep)
        ensures
            r@ == next_send_step(types::opt_text(session.conversation_id), text@, stage@),
    {
        match stage {
            SendStage::Start => match &session.conversation_id {
                Some(id) => SendStep::Agent(AgentStep::Warmup(id.clone())),
                None => SendStep::CreateConversation,
            },
            SendStage::Conversation(id) => SendStep::Agent(AgentStep::Warmup(id.clone())),
            SendStage::Warm(id) => SendStep::Agent(AgentStep::Subscribe(id.clone())),
            SendStage::Subscribed(id) => SendStep::Agent(
                AgentStep::Send { conversation_id: id.clone(), content: text.to_owned() },
            ),
        }
    }
}

/// How a step on the way to the agent went.
#[derive(Debug, PartialEq, Eq)]
pub enum SendOutcome {
    /// A conversation was created, or could not be.
    Created(Result<String, ChannelError>),
    /// A step with the agent was done, or failed with these words.
    Agent(AgentStep, Result<(), String>),
}

/// What follows a step on the way to the agent.
#[derive(Debug, PartialEq, Eq)]
pub enum SendNext {
    /// The text has come to a further stage.
    Stage(SendStage),
    /// It has been handed to this conversation.
    Sent(String),
    /// It does not reach the agent.
    Failed(ChannelError),
}

/// What follows a step on the way to the agent.
pub enum SendNextView {
    Stage(StageView),
    Sent(Seq<char>),
    Failed(crate::error::ErrorView),
}

impl View for SendNext {
    type V = SendNextView;

    open spec fn view(&self) -> SendNextView {
        match self {
            SendNext::Stage(stage) => SendNextView::Stage(stage@),
            SendNext::Sent(id) => SendNextView::Sent(id@),
            SendNext::Failed(e) => SendNextView::Failed(e@),
        }
    }
}

/// What follows once a conversation was created, or could not be.
pub open spec fn next_created(created: Result<Seq<char>, crate::error::ErrorView>) -> SendNextView {
    match created {
        Ok(id) => SendNextView::Stage(StageView::Conversation(id)),
        Err(e) => SendNextView::Failed(e),
    }
}

/// What follows a step with the agent that was done, or failed with these words. An
/// agent whose events cannot be received is missing.
pub open spec fn next_with_agent(step: AgentStepView, done: Result<(), Seq<char>>) -> SendNextView {
    match (step, done) {
        (AgentStepView::Warmup(id), Ok(_)) => SendNextView::Stage(StageView::Warm(id)),
        (AgentStepView::Subscribe(id), Ok(_)) => SendNextView::Stage(StageView::Subscribed(id)),
        (AgentStepView::Send { conversation_id, .. }, Ok(_)) => SendNextView::Sent(conversation_id),
        (AgentStepView::Subscribe(id), Err(_)) => SendNextView::Failed(missing_task(id)),
        (_, Err(why)) => SendNextView::Failed(crate::error::ErrorView::MessageSendFailed(why)),
    }
}

/// What follows an outcome on the way to the agent.
pub open spec fn next_sent(outcome: SendOutcome) -> SendNextView {
    match outcome {
        SendOutcome::Created(Ok(id)) => next_created(Ok(id@)),
        SendOutcome::Created(Err(e)) => next_created(Err(e@)),
        SendOutcome::Agent(step, Ok(_)) => next_with_agent(step@, Ok(())),
        SendOutcome::Agent(step, Err(why)) => next_with_agent(step@, Err(why@)),
    }
}

/// What follows a step on the way to the agent.
pub fn after_send_step(outcome: SendOutcome) -> (r: SendNext)
    ensures
        r@ == next_sent(outcome),
{
    match outcome {
        SendOutcome::Created(Ok(id)) => SendNext::Stage(SendStage::Conversation(id)),
        SendOutcome::Created(Err(e)) => SendNext::Failed(e),
        SendOutcome::Agent(AgentStep::Warmup(id), Ok(_)) => SendNext::Stage(SendStage::Warm(id)),
        SendOutcome::Agent(AgentStep::Subscribe(id), Ok(_)) => SendNext::Stage(SendStage::Subscribed(id)),
        SendOutcome::Agent(AgentStep::Send { conversation_id, content: _ }, Ok(_)) => SendNext::Sent(conversation_id),
        SendOutcome::Agent(AgentStep::Subscribe(id), Err(_)) => SendNext::Failed(missing_task_error(id.as_str())),
        SendOutcome::Agent(_, Err(why)) => SendNext::Failed(ChannelError::MessageSendFailed(why)),
    }
}

/// How many steps a text at a stage is from the agent.
pub open spec fn steps_to_agent(stage: StageView) -> nat {
    match stage {
        StageView::Start => 4,
        StageView::Conversation(_) => 3,
        StageView::Warm(_) => 2,
        StageView::Subscribed(_) => 1,
    }
}

/// The steps that are taken from a stage on, and how they end: `created` is how a
/// conversation comes about where one is needed, `done` how each step with the agent
/// goes.
pub open spec fn send_way(
    conversation: Option<Seq<char>>,
    text: Seq<char>,
    stage: StageView,
    created: Result<Seq<char>, crate::error::ErrorView>,
    done: spec_fn(AgentStepView) -> Result<(), Seq<char>>,
) -> (Seq<SendStepView>, SendNextView)
    decreases steps_to_agent(stage),
{
    let step = next_send_step(conversation, text, stage);
    let next = match step {
        SendStepView::CreateConversation => next_created(created),
        SendStepView::Agent(with) => next_with_agent(with, done(with)),
    };
    match next {
        SendNextView::Stage(further) => {
            let (rest, end) = send_way(conversation, text, further, created, done);
            (seq![step] + rest, end)
        },
        end => (seq![step], end),
    }
}

/// A text is handed to a conversation only right after the events of its agent are
/// received, which is right after the agent was started. The text is the one that
/// was to be sent, and it goes there once.
pub proof fn law_events_are_received_before_the_text(
    conversation: Option<Seq<char>>,
    text: Seq<char>,
    created: Result<Seq<char>, crate::error::ErrorView>,
    done: spec_fn(AgentStepView) -> Result<(), Seq<char>>,
    i: int,
)
    requires
        0 <= i < send_way(conversation, text, StageView::Start, created, done).0.len(),
    ensures
        ({
            let steps = send_way(conversation, text, StageView::Start, created, done).0;
            steps[i] matches SendStepView::Agent(AgentStepView::Send { conversation_id, content }) ==> {
                &&& content == text
                &&& i == steps.len() - 1
                &&& i >= 2
                &&& steps[i - 1] == SendStepView::Agent(AgentStepView::Subscribe(conversation_id))
                &&& done(AgentStepView::Subscribe(conversation_id)) is Ok
                &&& steps[i - 2] == SendStepView::Agent(AgentStepView::Warmup(conversation_id))
                &&& done(AgentStepView::Warmup(conversation_id)) is Ok
            }
        }),
{
    reveal_with_fuel(send_way, 5);
}

/// A text reaches the agent exactly if its session has a conversation or gets one,
/// and starting the agent, receiving its events and handing over the text all
/// succeed. It then went to that conversation. A conversation is created exactly
/// where the session has none.
pub proof fn law_sent_if_all_succeeds(
    conversation: Option<Seq<char>>,
    text: Seq<char>,
    created: Result<Seq<char>, crate::error::ErrorView>,
    done: spec_fn(AgentStepView) -> Result<(), Seq<char>>,
    id: Seq<char>,
)
    ensures
        ({
            let (steps, end) = send_way(conversation, text, StageView::Start, created, done);
            &&& end == SendNextView::Sent(id) <==> {
                &&& conversation == Some(id) || (conversation is None && created == Ok::<
                    Seq<char>,
                    crate::error::ErrorView,
                >(id))
                &&& done(AgentStepView::Warmup(id)) is Ok
                &&& done(AgentStepView::Subscribe(id)) is Ok
                &&& done(AgentStepView::Send { conversation_id: id, content: text }) is Ok
            }
            &&& steps.contains(SendStepView::CreateConversation) <==> conversation is None
            &&& end !is Stage
        }),
{
    reveal_with_fuel(send_way, 5);
    let steps = send_way(conversation, text, StageView::Start, created, done).0;
    if conversation is None {
        assert(steps[0] == SendStepView::CreateConversation);
    }
}

// ---------------------------------------------------------------------------
// Events
// ---------------------------------------------------------------------------

/// What an agent reports while it works. Reports that no user sees are all the
/// same here.
#[derive(Debug, PartialEq, Eq)]
pub enum AgentEvent {
    Text(String),
    Finish,
    Error(String),
    Thinking(String),
    ToolCall { name: String, status: String },
    Internal,
}

/// What an event means for the message that is being shown.
#[derive(Debug, PartialEq, Eq)]
pub enum StreamAction {
    /// More text has come.
    AppendText(String),
    /// The text is complete.
    Finish,
    /// Something went wrong.
    Error(String),
    /// The agent is thinking.
    Thinking(String),
    /// A tool changed its status.
    ToolCall { name: String, status: String },
}

impl ChannelMessageService {
    /// What an event means for the message that is being shown; nothing where no
    /// user sees it.
    pub fn process_stream_event(event: &AgentEvent) -> (r: Option<StreamAction>)
        ensures
            match (*event, r) {
                (AgentEvent::Text(s), Some(StreamAction::AppendText(t))) => t@ == s@,
                (AgentEvent::Finish, Some(StreamAction::Finish)) => true,
                (AgentEvent::Error(s), Some(StreamAction::Error(t))) => t@ == s@,
                (AgentEvent::Thinking(s), Some(StreamAction::Thinking(t))) => t@ == s@,
                (AgentEvent::ToolCall { name, status }, Some(StreamAction::ToolCall { name: n, status: s })) => n@ == name@
                    && s@ == status@,
                (AgentEvent::Internal, None) => true,
                _ => false,
            },
    {
        match event {
            AgentEvent::Text(s) => Some(StreamAction::AppendText(s.clone())),
            AgentEvent::Finish => Some(StreamAction::Finish),
            AgentEvent::Error(s) => Some(StreamAction::Error(s.clone())),
            AgentEvent::Thinking(s) => Some(StreamAction::Thinking(s.clone())),
            AgentEvent::ToolCall { name, status } => Some(
                StreamAction::ToolCall { name: name.clone(), status: status.clone() },
            ),
            AgentEvent::Internal => None,
        }
    }
}

// ---------------------------------------------------------------------------
// Messages
// ---------------------------------------------------------------------------

impl ChannelMessageService {
    /// The message that stands in until the agent answers.
    pub fn build_thinking_message() -> (r: UnifiedOutgoingMessage)
        ensures
            r@ == types::text_message_view("\u{23f3} Thinking..."@),
    {
        text_message("\u{23f3} Thinking...".to_owned())
    }
}

/// The message once the agent has answered, with buttons for what may come
/// next.
pub open spec fn final_message(text: Seq<char>) -> types::OutgoingView {
    types::OutgoingView {
        message_type: OutgoingMessageType::Buttons,
        buttons: Some(
            seq![
                seq![
                    types::button_view("\u{1f504} Regenerate"@, "chat.regenerate"@),
                    types::button_view("\u{25b6}\u{fe0f} Continue"@, "chat.continue"@),
                    types::button_view("\u{2795} New Session"@, "session.new"@),
                ],
            ],
        ),
        ..types::text_message_view(text)
    }
}

impl ChannelMessageService {
    /// The message once the agent has answered.
    pub fn build_final_message(text: &str) -> (r: UnifiedOutgoingMessage)
        ensures
            r@ == final_message(text@),
    {
        let mut row: Vec<ActionButton> = Vec::new();
        row.push(button("\u{1f504} Regenerate", "chat.regenerate"));
        row.push(button("\u{25b6}\u{fe0f} Continue", "chat.continue"));
        row.push(button("\u{2795} New Session", "session.new"));
        let mut rows: Vec<Vec<ActionButton>> = Vec::new();
        rows.push(row);
        assert(types::rows_view(rows) =~~= final_message(text@).buttons->0);
        UnifiedOutgoingMessage {
            message_type: OutgoingMessageType::Buttons,
            text: Some(text.to_owned()),
            parse_mode: None,
            buttons: Some(rows),
            keyboard: None,
            image_url: None,
            file_url: None,
            file_name: None,
            media_actions: None,
            reply_to_message_id: None,
            silent: None,
        }
    }

    /// The message while the agent is still answering.
    pub fn build_streaming_message(text: &str) -> (r: UnifiedOutgoingMessage)
        ensures
            r@ == types::text_message_view(text@),
    {
        text_message(text.to_owned())
    }

    /// Milliseconds between two edits of a message that is still growing.
    pub fn throttle_interval() -> (r: u64)
        ensures
            r == STREAM_THROTTLE_INTERVAL_MS,
    {
        STREAM_THROTTLE_INTERVAL_MS
    }

    /// Milliseconds that a tool waits for its confirmation.
    pub fn confirm_timeout() -> (r: u64)
        ensures
            r == TOOL_CONFIRM_TIMEOUT_MS,
    {
        TOOL_CONFIRM_TIMEOUT_MS
    }
}

// ---------------------------------------------------------------------------
// Laws
// ---------------------------------------------------------------------------

/// Every conversation of a channel runs its tools by itself, and has its model
/// in exactly one place.
pub proof fn law_conversations_run_alone(
    platform: PluginType,
    agent: channel_settings::AgentConfigView,
    setting: Option<channel_settings::SettingView>,
    model: Option<channel_settings::ModelConfigView>,
    chat_id: Option<Seq<char>>,
)
    ensures
        ({
            let q = conversation_request(platform, agent, setting, model, chat_id);
            &&& q.extra.session_mode == "yolo"@
            &&& q.model is Some <==> q.extra.model is None
            &&& q.channel_chat_id == chat_id
        }),
{
}

/// A conversation names either its assistant or its agent, and a backend only
/// beside an agent.
pub proof fn law_assistant_or_agent(
    platform: PluginType,
    agent: channel_settings::AgentConfigView,
    setting: Option<channel_settings::SettingView>,
    model: Option<channel_settings::ModelConfigView>,
    chat_id: Option<Seq<char>>,
)
    ensures
        ({
            let q = conversation_request(platform, agent, setting, model, chat_id);
            &&& q.agent_type is Some <==> q.assistant_id is None
            &&& q.assistant_id is Some ==> q.extra.backend is None
        }),
{
}

/// A conversation without an assistant is of the agent that is configured: of its
/// runtime and on its backend. With an assistant it is the assistant's.
pub proof fn law_configured_agent_is_asked_for(
    platform: PluginType,
    agent: channel_settings::AgentConfigView,
    setting: Option<channel_settings::SettingView>,
    model: Option<channel_settings::ModelConfigView>,
    chat_id: Option<Seq<char>>,
)
    ensures
        ({
            let q = conversation_request(platform, agent, setting, model, chat_id);
            let assistant = match setting {
                Some(s) => s.assistant_id,
                None => None,
            };
            &&& q.assistant_id == assistant
            &&& assistant is None ==> q.extra.backend == agent.backend
            &&& assistant is None ==> q.agent_type == Some(named_agent_type(agent.agent_type))
            &&& assistant is Some ==> q.extra.backend is None && q.agent_type is None
        }),
{
}

/// The model that is configured is the one that the conversation gets: at the top
/// for the runtime `aionrs`, among the extras for every other. Without one the
/// provider and the model are empty.
pub proof fn law_configured_model_is_asked_for(
    platform: PluginType,
    agent: channel_settings::AgentConfigView,
    setting: Option<channel_settings::SettingView>,
    model: Option<channel_settings::ModelConfigView>,
    chat_id: Option<Seq<char>>,
)
    ensures
        ({
            let q = conversation_request(platform, agent, setting, model, chat_id);
            let place = if agent.agent_type == "aionrs"@ {
                q.model
            } else {
                q.extra.model
            };
            &&& model is Some ==> place == model
            &&& model is None ==> (place matches Some(m) && m.provider_id.len() == 0 && m.model.len() == 0
                && m.use_model is None)
            &&& agent.agent_type == "aionrs"@ ==> q.extra.model is None
            &&& agent.agent_type != "aionrs"@ ==> q.model is None
        }),
{
    law_runtimes_have_their_names(agent.agent_type);
}

/// Each runtime but the common protocol has one name; every other name is the
/// common protocol's. Four runtimes are no longer started.
pub proof fn law_runtimes_have_their_names(name: Seq<char>)
    ensures
        named_agent_type(name) == AgentType::Gemini <==> name == "gemini"@,
        named_agent_type(name) == AgentType::OpenclawGateway <==> name == "openclaw-gateway"@,
        named_agent_type(name) == AgentType::Nanobot <==> name == "nanobot"@,
        named_agent_type(name) == AgentType::Remote <==> name == "remote"@,
        named_agent_type(name) == AgentType::Aionrs <==> name == "aionrs"@,
        named_agent_type(name) == AgentType::Antigravity <==> name == "antigravity"@,
        deprecated_runtime(named_agent_type(name)) <==> (name == "gemini"@ || name == "openclaw-gateway"@ || name
            == "nanobot"@ || name == "remote"@),
{
    reveal_strlit("gemini");
    reveal_strlit("openclaw-gateway");
    reveal_strlit("nanobot");
    reveal_strlit("remote");
    reveal_strlit("aionrs");
    reveal_strlit("antigravity");
    assert("gemini"@[0] == 'g' && "openclaw-gateway"@[0] == 'o' && "nanobot"@[0] == 'n' && "remote"@[0] == 'r');
    assert("aionrs"@[1] == 'i' && "antigravity"@[1] == 'n' && "aionrs"@[0] == 'a' && "antigravity"@[0] == 'a');
}

/// A conversation is filed under the platform that it comes from; those of Slack and
/// Discord are the application's own.
pub proof fn law_conversations_keep_their_source(
    platform: PluginType,
    agent: channel_settings::AgentConfigView,
    setting: Option<channel_settings::SettingView>,
    model: Option<channel_settings::ModelConfigView>,
    chat_id: Option<Seq<char>>,
)
    ensures
        ({
            let source = conversation_request(platform, agent, setting, model, chat_id).source;
            &&& source == ConversationSource::Telegram <==> platform == PluginType::Telegram
            &&& source == ConversationSource::Lark <==> platform == PluginType::Lark
            &&& source == ConversationSource::Dingtalk <==> platform == PluginType::Dingtalk
            &&& source == ConversationSource::Weixin <==> platform == PluginType::Weixin
        }),
{
}

/// A conversation is called what its assistant is called, where that is not blank.
/// Else its name tells the platform, the runtime, the backend of a runtime `acp`, and
/// the beginning of the chat's id, in this order, and leaves out what is not known.
pub proof fn law_conversation_name_tells(
    platform: PluginType,
    agent: channel_settings::AgentConfigView,
    setting: Option<channel_settings::SettingView>,
    model: Option<channel_settings::ModelConfigView>,
    chat_id: Option<Seq<char>>,
)
    ensures
        ({
            let name = conversation_request(platform, agent, setting, model, chat_id).name;
            let called = match setting {
                Some(s) => match s.name {
                    Some(n) => text::trimmed(n),
                    None => Seq::empty(),
                },
                None => Seq::empty(),
            };
            &&& called.len() > 0 ==> name == called
            &&& called.len() == 0 ==> name == short_name(platform) + (if agent.agent_type.len() > 0 {
                "-"@ + agent.agent_type
            } else {
                Seq::empty()
            }) + (if agent.agent_type == "acp"@ && agent.backend is Some {
                "-"@ + agent.backend->0
            } else {
                Seq::empty()
            }) + (match chat_id {
                Some(c) => "-"@ + short_chat_id(c),
                None => Seq::empty(),
            })
        }),
{
    reveal_strlit("acp");
    let parts = name_parts(platform, agent.agent_type, agent.backend, chat_id);
    reveal_with_fuel(text::join_texts, 5);
    let whole = text::join_texts(parts, "-"@);
    let n = parts.len();
    if n >= 2 {
        assert(parts.drop_last().len() == n - 1);
        if n >= 3 {
            assert(parts.drop_last().drop_last().len() == n - 2);
            if n >= 4 {
                assert(parts.drop_last().drop_last().drop_last().len() == n - 3);
            }
        }
    }
    let told = short_name(platform) + (if agent.agent_type.len() > 0 {
        "-"@ + agent.agent_type
    } else {
        Seq::empty()
    }) + (if agent.agent_type == "acp"@ && agent.backend is Some {
        "-"@ + agent.backend->0
    } else {
        Seq::empty()
    }) + (match chat_id {
        Some(c) => "-"@ + short_chat_id(c),
        None => Seq::empty(),
    });
    assert(whole =~= told);
}

/// Two platforms do not share the beginning of their conversations' names.
pub proof fn law_platform_names_differ(a: PluginType, b: PluginType)
    ensures
        short_name(a) == short_name(b) <==> a == b,
        short_name(PluginType::Telegram) == "tg"@,
        short_name(PluginType::Lark) == "lark"@,
        short_name(PluginType::Dingtalk) == "ding"@,
        short_name(PluginType::Weixin) == "wx"@,
        short_name(PluginType::Slack) == "slack"@,
        short_name(PluginType::Discord) == "discord"@,
{
    reveal_strlit("tg");
    reveal_strlit("lark");
    reveal_strlit("ding");
    reveal_strlit("wx");
    reveal_strlit("slack");
    reveal_strlit("discord");
    assert("tg"@.len() == 2 && "wx"@.len() == 2 && "lark"@.len() == 4 && "ding"@.len() == 4 && "slack"@.len() == 5
        && "discord"@.len() == 7);
    assert("tg"@[0] == 't' && "wx"@[0] == 'w' && "lark"@[0] == 'l' && "ding"@[0] == 'd');
}

/// The short form of a chat's id is the beginning of its bytes: all of them up to
/// eight, and eight of more.
pub proof fn law_short_chat_id_is_the_beginning(chat_id: Seq<char>)
    requires
        chat_id_shortens(Some(chat_id)),
    ensures
        encode_utf8(short_chat_id(chat_id)) == encode_utf8(chat_id).take(encode_utf8(short_chat_id(chat_id)).len() as int),
        encode_utf8(chat_id).len() <= 8 ==> short_chat_id(chat_id) == chat_id,
        encode_utf8(chat_id).len() > 8 ==> encode_utf8(short_chat_id(chat_id)).len() == 8,
{
    let bytes = encode_utf8(chat_id);
    let n = short_chat_len(chat_id);
    encode_utf8_valid_utf8(chat_id);
    encode_utf8_decode_utf8(chat_id);
    if n == bytes.len() {
        assert(bytes.subrange(0, n) =~= bytes);
    }
    valid_utf8_split(bytes, n);
    decode_utf8_encode_utf8(bytes.subrange(0, n));
    assert(bytes.take(n) =~= bytes.subrange(0, n));
}

} // verus!
