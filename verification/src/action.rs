//! What to do with an incoming message: authorize its sender, answer a button,
//! or hand the text to an agent.
//!
//! Users, pairing codes, agents and sessions are kept elsewhere. Each function
//! here takes what is known so far and says either what to ask for next or what
//! to reply.
use vstd::prelude::*;
use vstd::string::*;
use vstd::utf8::*;

use crate::error::ChannelError;
use crate::message_service;
use crate::plugins::callback;
use crate::text;
use crate::text::{i64_text, str_eq};
use crate::types;
use crate::types::{
    button, copy_opt, ActionBehavior, ActionButton, ActionCategory, ActionResponse, AssistantSession, PluginType,
    UnifiedAction, UnifiedIncomingMessage,
};

verus! {

/// The outcome of an incoming message.
#[derive(Debug)]
pub enum MessageResult {
    /// A response for the platform.
    Action(ActionResponse),
    /// The text goes to the agent of a session.
    Dispatched { owner_user_id: String, session_id: String, conversation_id: Option<String> },
    /// The agent of the session is still busy with an earlier message.
    AlreadyProcessing,
}

/// What the outcome of a message holds.
#[verifier::ext_equal]
pub enum ResultView {
    Action(types::ResponseView),
    Dispatched { owner_user_id: Seq<char>, session_id: Seq<char>, conversation_id: Option<Seq<char>> },
    AlreadyProcessing,
}

impl View for MessageResult {
    type V = ResultView;

    open spec fn view(&self) -> ResultView {
        match self {
            MessageResult::Action(r) => ResultView::Action(r@),
            MessageResult::Dispatched { owner_user_id, session_id, conversation_id } => ResultView::Dispatched {
                owner_user_id: owner_user_id@,
                session_id: session_id@,
                conversation_id: types::opt_text(*conversation_id),
            },
            MessageResult::AlreadyProcessing => ResultView::AlreadyProcessing,
        }
    }
}

/// What a session is wanted for.
#[derive(Clone, Copy, Debug, PartialEq, Eq, Structural)]
pub enum SessionPurpose {
    /// To hand a text to its agent.
    Dispatch,
    /// To start afresh.
    New,
    /// To report on it.
    Status,
}

impl SessionPurpose {
    /// Whether the session that there is has to go: only who asks for a new one
    /// gets one in its place, anyone else goes on with it.
    pub fn starts_afresh(&self) -> (r: bool)
        ensures
            r == (*self == SessionPurpose::New),
    {
        match self {
            SessionPurpose::New => true,
            SessionPurpose::Dispatch | SessionPurpose::Status => false,
        }
    }
}

/// What to do next.
#[derive(Debug)]
pub enum ActionStep {
    /// Ask for a pairing code.
    RequestPairing {
        owner_user_id: String,
        platform_user_id: String,
        platform_type: PluginType,
        display_name: Option<String>,
    },
    /// Find out whether a platform user is authorized.
    CheckAuthorized { owner_user_id: String, platform_user_id: String, platform_type: PluginType },
    /// Resolve the agent of a platform and get a session with it.
    OpenSession {
        owner_user_id: String,
        user_id: String,
        chat_id: String,
        platform: PluginType,
        purpose: SessionPurpose,
    },
    /// Reply.
    Respond(ActionResponse),
}

/// What a step holds.
#[verifier::ext_equal]
pub enum StepView {
    RequestPairing {
        owner_user_id: Seq<char>,
        platform_user_id: Seq<char>,
        platform_type: PluginType,
        display_name: Option<Seq<char>>,
    },
    CheckAuthorized { owner_user_id: Seq<char>, platform_user_id: Seq<char>, platform_type: PluginType },
    OpenSession {
        owner_user_id: Seq<char>,
        user_id: Seq<char>,
        chat_id: Seq<char>,
        platform: PluginType,
        purpose: SessionPurpose,
    },
    Respond(types::ResponseView),
}

impl View for ActionStep {
    type V = StepView;

    open spec fn view(&self) -> StepView {
        match self {
            ActionStep::RequestPairing { owner_user_id, platform_user_id, platform_type, display_name } => {
                StepView::RequestPairing {
                    owner_user_id: owner_user_id@,
                    platform_user_id: platform_user_id@,
                    platform_type: *platform_type,
                    display_name: types::opt_text(*display_name),
                }
            },
            ActionStep::CheckAuthorized { owner_user_id, platform_user_id, platform_type } => {
                StepView::CheckAuthorized {
                    owner_user_id: owner_user_id@,
                    platform_user_id: platform_user_id@,
                    platform_type: *platform_type,
                }
            },
            ActionStep::OpenSession { owner_user_id, user_id, chat_id, platform, purpose } => StepView::OpenSession {
                owner_user_id: owner_user_id@,
                user_id: user_id@,
                chat_id: chat_id@,
                platform: *platform,
                purpose: *purpose,
            },
            ActionStep::Respond(r) => StepView::Respond(r@),
        }
    }
}

// ---------------------------------------------------------------------------
// Responses
// ---------------------------------------------------------------------------

/// A response of text alone.
pub open spec fn text_response(text: Seq<char>) -> types::ResponseView {
    types::ResponseView {
        text: Some(text),
        parse_mode: None,
        buttons: None,
        keyboard: None,
        behavior: ActionBehavior::Send,
        toast: None,
        edit_message_id: None,
    }
}

/// A response of text with rows of buttons under it.
pub open spec fn button_response(text: Seq<char>, rows: Seq<Seq<types::ButtonView>>) -> types::ResponseView {
    types::ResponseView { buttons: Some(rows), ..text_response(text) }
}

/// A response that only shows a note.
pub open spec fn toast_response(behavior: ActionBehavior, toast: Seq<char>) -> types::ResponseView {
    types::ResponseView {
        text: None,
        parse_mode: None,
        buttons: None,
        keyboard: None,
        behavior,
        toast: Some(toast),
        edit_message_id: None,
    }
}

fn respond_text(text: String) -> (r: ActionResponse)
    ensures
        r@ == text_response(text@),
{
    ActionResponse {
        text: Some(text),
        parse_mode: None,
        buttons: None,
        keyboard: None,
        behavior: ActionBehavior::Send,
        toast: None,
        edit_message_id: None,
    }
}

fn respond_buttons(text: String, rows: Vec<Vec<ActionButton>>) -> (r: ActionResponse)
    ensures
        r@ == button_response(text@, types::rows_view(rows)),
{
    ActionResponse {
        text: Some(text),
        parse_mode: None,
        buttons: Some(rows),
        keyboard: None,
        behavior: ActionBehavior::Send,
        toast: None,
        edit_message_id: None,
    }
}

fn respond_toast(behavior: ActionBehavior, toast: &str) -> (r: ActionResponse)
    ensures
        r@ == toast_response(behavior, toast@),
{
    ActionResponse {
        text: None,
        parse_mode: None,
        buttons: None,
        keyboard: None,
        behavior,
        toast: Some(toast.to_owned()),
        edit_message_id: None,
    }
}

/// One row of one button.
fn one_button(label: &str, action: &str) -> (r: Vec<Vec<ActionButton>>)
    ensures
        types::rows_view(r) == seq![seq![types::button_view(label@, action@)]],
{
    let mut row: Vec<ActionButton> = Vec::new();
    row.push(button(label, action));
    let mut rows: Vec<Vec<ActionButton>> = Vec::new();
    rows.push(row);
    assert(types::rows_view(rows) =~~= seq![seq![types::button_view(label@, action@)]]);
    rows
}

/// The invitation to pair.
pub open spec fn pairing_response(code: Seq<char>) -> types::ResponseView {
    button_response(
        "Welcome! To use this bot, you need authorization.\n\nYour pairing code: *"@ + code
            + "*\n\nShare this code with the admin, who can approve it in Settings → Channel → Pairing Requests.\nThe code expires in 10 minutes."@,
        seq![
            seq![
                types::button_view("Refresh Code"@, "pairing.refresh"@),
                types::button_view("Check Status"@, "pairing.check"@),
                types::button_view("Help"@, "pairing.help"@),
            ],
        ],
    )
}

/// The invitation to pair with `code`.
pub fn build_pairing_response(code: &str) -> (r: ActionResponse)
    ensures
        r@ == pairing_response(code@),
{
    let mut text = "Welcome! To use this bot, you need authorization.\n\nYour pairing code: *".to_owned();
    text.append(code);
    text.append(
        "*\n\nShare this code with the admin, who can approve it in Settings → Channel → Pairing Requests.\nThe code expires in 10 minutes.",
    );
    let mut row: Vec<ActionButton> = Vec::new();
    row.push(button("Refresh Code", "pairing.refresh"));
    row.push(button("Check Status", "pairing.check"));
    row.push(button("Help", "pairing.help"));
    let mut rows: Vec<Vec<ActionButton>> = Vec::new();
    rows.push(row);
    assert(types::rows_view(rows) =~~= pairing_response(code@).buttons->0);
    respond_buttons(text, rows)
}

/// The reply to a call for help.
pub open spec fn help_response() -> types::ResponseView {
    button_response(
        "How can I help?\nChoose an option below or just send me a message."@,
        seq![
            seq![
                types::button_view("New Session"@, "session.new"@),
                types::button_view("Session Status"@, "session.status"@),
            ],
            seq![types::button_view("Features"@, "help.features"@), types::button_view("Tips"@, "help.tips"@)],
        ],
    )
}

/// The reply to a call for help.
pub fn build_help_response() -> (r: ActionResponse)
    ensures
        r@ == help_response(),
{
    let mut sessions: Vec<ActionButton> = Vec::new();
    sessions.push(button("New Session", "session.new"));
    sessions.push(button("Session Status", "session.status"));
    let mut topics: Vec<ActionButton> = Vec::new();
    topics.push(button("Features", "help.features"));
    topics.push(button("Tips", "help.tips"));
    let mut rows: Vec<Vec<ActionButton>> = Vec::new();
    rows.push(sessions);
    rows.push(topics);
    assert(types::rows_view(rows) =~~= help_response().buttons->0);
    respond_buttons("How can I help?\nChoose an option below or just send me a message.".to_owned(), rows)
}

/// The reply to an action that nobody knows.
pub open spec fn unknown_action_response(action: Seq<char>) -> types::ResponseView {
    text_response("Unknown action: "@ + action)
}

/// The reply to an action that nobody knows.
pub fn build_unknown_action_response(action: &str) -> (r: ActionResponse)
    ensures
        r@ == unknown_action_response(action@),
{
    let mut text = "Unknown action: ".to_owned();
    text.append(action);
    respond_text(text)
}

/// The reply once it is known whether a user is authorized.
pub open spec fn authorization_response(authorized: bool) -> types::ResponseView {
    if authorized {
        text_response("You are authorized! Send a message to start chatting."@)
    } else {
        button_response(
            "Still waiting for approval. Ask the admin to check Settings → Channel."@,
            seq![
                seq![
                    types::button_view("Refresh"@, "pairing.refresh"@),
                    types::button_view("Check Again"@, "pairing.check"@),
                ],
            ],
        )
    }
}

/// The reply once it is known whether a user is authorized.
pub fn build_authorization_response(authorized: bool) -> (r: ActionResponse)
    ensures
        r@ == authorization_response(authorized),
{
    if authorized {
        respond_text("You are authorized! Send a message to start chatting.".to_owned())
    } else {
        let mut row: Vec<ActionButton> = Vec::new();
        row.push(button("Refresh", "pairing.refresh"));
        row.push(button("Check Again", "pairing.check"));
        let mut rows: Vec<Vec<ActionButton>> = Vec::new();
        rows.push(row);
        assert(types::rows_view(rows) =~~= authorization_response(authorized).buttons->0);
        respond_buttons("Still waiting for approval. Ask the admin to check Settings → Channel.".to_owned(), rows)
    }
}

// ---------------------------------------------------------------------------
// Sessions
// ---------------------------------------------------------------------------

/// Whether the first eight bytes of an id end between two characters.
pub open spec fn has_short_form(id: Seq<char>) -> bool {
    is_char_boundary(encode_utf8(id), 8)
}

/// The first eight bytes of an id.
pub open spec fn short_form(id: Seq<char>) -> Seq<char> {
    decode_utf8(encode_utf8(id).subrange(0, 8))
}

fn short_id(id: &str) -> (r: String)
    requires
        has_short_form(id@),
    ensures
        r@ == short_form(id@),
{
    let (head, _) = id.split_at(8);
    proof {
        encode_utf8_decode_utf8(head@);
    }
    head.to_owned()
}

/// The outcome once the session is there.
pub open spec fn session_result(
    purpose: SessionPurpose,
    owner_user_id: Seq<char>,
    session: types::SessionView,
) -> ResultView {
    match purpose {
        SessionPurpose::Dispatch => ResultView::Dispatched {
            owner_user_id,
            session_id: session.id,
            conversation_id: session.conversation_id,
        },
        SessionPurpose::New => ResultView::Action(
            button_response(
                "New session created.\nAgent: "@ + session.agent_type + "\nSession: "@ + short_form(session.id),
                seq![seq![types::button_view("Help"@, "help.show"@)]],
            ),
        ),
        SessionPurpose::Status => ResultView::Action(
            button_response(
                "Session: "@ + short_form(session.id) + "\nAgent: "@ + session.agent_type + "\nCreated: "@
                    + text::int_text(session.created_at as int) + "\nLast active: "@ + text::int_text(
                    session.last_activity as int,
                ),
                seq![seq![types::button_view("New Session"@, "session.new"@)]],
            ),
        ),
    }
}

/// The outcome once the session is there. A report shows the first eight bytes
/// of its id.
pub fn session_ready(purpose: SessionPurpose, owner_user_id: &str, session: &AssistantSession) -> (r: MessageResult)
    requires
        purpose != SessionPurpose::Dispatch ==> has_short_form(session.id@),
    ensures
        r@ == session_result(purpose, owner_user_id@, session@),
{
    match purpose {
        SessionPurpose::Dispatch => MessageResult::Dispatched {
            owner_user_id: owner_user_id.to_owned(),
            session_id: session.id.clone(),
            conversation_id: copy_opt(&session.conversation_id),
        },
        SessionPurpose::New => {
            let mut text = "New session created.\nAgent: ".to_owned();
            text.append(session.agent_type.as_str());
            text.append("\nSession: ");
            text.append(short_id(session.id.as_str()).as_str());
            MessageResult::Action(respond_buttons(text, one_button("Help", "help.show")))
        },
        SessionPurpose::Status => {
            let mut text = "Session: ".to_owned();
            text.append(short_id(session.id.as_str()).as_str());
            text.append("\nAgent: ");
            text.append(session.agent_type.as_str());
            text.append("\nCreated: ");
            text.append(i64_text(session.created_at).as_str());
            text.append("\nLast active: ");
            text.append(i64_text(session.last_activity).as_str());
            MessageResult::Action(respond_buttons(text, one_button("New Session", "session.new")))
        },
    }
}

// ---------------------------------------------------------------------------
// Routing
// ---------------------------------------------------------------------------

/// The next step of an action about the platform.
pub open spec fn platform_step(owner_user_id: Seq<char>, a: types::ActionView) -> StepView {
    if a.action == "pairing.show"@ || a.action == "pairing.refresh"@ {
        StepView::RequestPairing {
            owner_user_id,
            platform_user_id: a.context.user_id,
            platform_type: a.context.platform,
            display_name: None,
        }
    } else if a.action == "pairing.check"@ {
        StepView::CheckAuthorized {
            owner_user_id,
            platform_user_id: a.context.user_id,
            platform_type: a.context.platform,
        }
    } else if a.action == "pairing.help"@ {
        StepView::Respond(
            text_response(
                "To use this bot, you need authorization:\n1. Send any message to get a 6-digit pairing code\n2. Share this code with the admin\n3. Admin approves in Settings → Channel\n4. You're ready to chat!"@,
            ),
        )
    } else {
        StepView::Respond(unknown_action_response(a.action))
    }
}

/// The next step of an action about sessions, help or settings.
pub open spec fn system_step(owner_user_id: Seq<char>, a: types::ActionView, user_id: Seq<char>) -> StepView {
    if a.action == "session.new"@ || a.action == "session.status"@ {
        StepView::OpenSession {
            owner_user_id,
            user_id,
            chat_id: a.context.chat_id,
            platform: a.context.platform,
            purpose: if a.action == "session.new"@ {
                SessionPurpose::New
            } else {
                SessionPurpose::Status
            },
        }
    } else if a.action == "help.show"@ {
        StepView::Respond(help_response())
    } else if a.action == "help.features"@ {
        StepView::Respond(
            text_response(
                "Features:\n• AI chat through your configured assistant\n• Tool execution with auto-approval\n• Session isolation per chat"@,
            ),
        )
    } else if a.action == "help.pairing"@ {
        StepView::Respond(
            text_response("Pairing:\nSend any message → get a 6-digit code → admin approves → you're in!"@),
        )
    } else if a.action == "help.tips"@ {
        StepView::Respond(
            text_response(
                "Tips:\n• Start a new session to clear context\n• Use /help to see available commands\n• In group chats, @mention the bot"@,
            ),
        )
    } else if a.action == "settings.show"@ {
        StepView::Respond(
            text_response(
                "Settings are managed in the desktop app.\nGo to Settings → Channel to configure plugins and manage users."@,
            ),
        )
    } else {
        StepView::Respond(unknown_action_response(a.action))
    }
}

/// The reply to an action about the conversation.
pub open spec fn chat_response(a: types::ActionView) -> types::ResponseView {
    if a.action == "chat.send"@ || a.action == "chat.regenerate"@ || a.action == "chat.continue"@ {
        toast_response(ActionBehavior::Send, "Processing..."@)
    } else if a.action == "action.copy"@ {
        toast_response(ActionBehavior::Answer, "Copied to clipboard"@)
    } else if a.action == "system.confirm"@ {
        toast_response(ActionBehavior::Answer, "Confirmed"@)
    } else {
        unknown_action_response(a.action)
    }
}

/// The next step of an action.
pub open spec fn action_step(owner_user_id: Seq<char>, a: types::ActionView, user_id: Seq<char>) -> StepView {
    match a.category {
        ActionCategory::Platform => platform_step(owner_user_id, a),
        ActionCategory::System => system_step(owner_user_id, a, user_id),
        ActionCategory::Chat => StepView::Respond(chat_response(a)),
    }
}

/// The next step of a message, once its sender has been looked up: a stranger
/// is asked to pair, a button is answered, and anything else goes to the agent.
pub open spec fn message_step(owner_user_id: Seq<char>, m: types::IncomingView, user_id: Option<Seq<char>>) -> StepView {
    match user_id {
        None => StepView::RequestPairing {
            owner_user_id,
            platform_user_id: m.user.id,
            platform_type: m.platform,
            display_name: Some(m.user.display_name),
        },
        Some(id) => match m.action {
            Some(a) => action_step(owner_user_id, a, id),
            None => StepView::OpenSession {
                owner_user_id,
                user_id: id,
                chat_id: m.chat_id,
                platform: m.platform,
                purpose: SessionPurpose::Dispatch,
            },
        },
    }
}

/// The next step of an action about the platform.
pub fn handle_platform_action(owner_user_id: &str, action: &UnifiedAction) -> (r: ActionStep)
    ensures
        r@ == platform_step(owner_user_id@, action@),
{
    let name = action.action.as_str();
    if str_eq(name, "pairing.show") || str_eq(name, "pairing.refresh") {
        ActionStep::RequestPairing {
            owner_user_id: owner_user_id.to_owned(),
            platform_user_id: action.context.user_id.clone(),
            platform_type: action.context.platform,
            display_name: None,
        }
    } else if str_eq(name, "pairing.check") {
        ActionStep::CheckAuthorized {
            owner_user_id: owner_user_id.to_owned(),
            platform_user_id: action.context.user_id.clone(),
            platform_type: action.context.platform,
        }
    } else if str_eq(name, "pairing.help") {
        ActionStep::Respond(
            respond_text(
                "To use this bot, you need authorization:\n1. Send any message to get a 6-digit pairing code\n2. Share this code with the admin\n3. Admin approves in Settings → Channel\n4. You're ready to chat!".to_owned(),
            ),
        )
    } else {
        ActionStep::Respond(build_unknown_action_response(name))
    }
}

/// The next step of an action about sessions, help or settings.
pub fn handle_system_action(owner_user_id: &str, action: &UnifiedAction, internal_user_id: &str) -> (r: ActionStep)
    ensures
        r@ == system_step(owner_user_id@, action@, internal_user_id@),
{
    let name = action.action.as_str();
    if str_eq(name, "session.new") {
        ActionStep::OpenSession {
            owner_user_id: owner_user_id.to_owned(),
            user_id: internal_user_id.to_owned(),
            chat_id: action.context.chat_id.clone(),
            platform: action.context.platform,
            purpose: SessionPurpose::New,
        }
    } else if str_eq(name, "session.status") {
        ActionStep::OpenSession {
            owner_user_id: owner_user_id.to_owned(),
            user_id: internal_user_id.to_owned(),
            chat_id: action.context.chat_id.clone(),
            platform: action.context.platform,
            purpose: SessionPurpose::Status,
        }
    } else if str_eq(name, "help.show") {
        ActionStep::Respond(build_help_response())
    } else if str_eq(name, "help.features") {
        ActionStep::Respond(
            respond_text(
                "Features:\n• AI chat through your configured assistant\n• Tool execution with auto-approval\n• Session isolation per chat".to_owned(),
            ),
        )
    } else if str_eq(name, "help.pairing") {
        ActionStep::Respond(
            respond_text(
                "Pairing:\nSend any message → get a 6-digit code → admin approves → you're in!".to_owned(),
            ),
        )
    } else if str_eq(name, "help.tips") {
        ActionStep::Respond(
            respond_text(
                "Tips:\n• Start a new session to clear context\n• Use /help to see available commands\n• In group chats, @mention the bot".to_owned(),
            ),
        )
    } else if str_eq(name, "settings.show") {
        ActionStep::Respond(
            respond_text(
                "Settings are managed in the desktop app.\nGo to Settings → Channel to configure plugins and manage users.".to_owned(),
            ),
        )
    } else {
        ActionStep::Respond(build_unknown_action_response(name))
    }
}

/// The reply to an action about the conversation. Sending, regenerating and
/// continuing happen along the message path; the reply only says so.
pub fn handle_chat_action(action: &UnifiedAction) -> (r: ActionResponse)
    ensures
        r@ == chat_response(action@),
{
    let name = action.action.as_str();
    if str_eq(name, "chat.send") || str_eq(name, "chat.regenerate") || str_eq(name, "chat.continue") {
        respond_toast(ActionBehavior::Send, "Processing...")
    } else if str_eq(name, "action.copy") {
        respond_toast(ActionBehavior::Answer, "Copied to clipboard")
    } else if str_eq(name, "system.confirm") {
        respond_toast(ActionBehavior::Answer, "Confirmed")
    } else {
        build_unknown_action_response(name)
    }
}

/// The next step of an action.
pub fn route_action(owner_user_id: &str, action: &UnifiedAction, internal_user_id: &str) -> (r: ActionStep)
    ensures
        r@ == action_step(owner_user_id@, action@, internal_user_id@),
{
    match action.category {
        ActionCategory::Platform => handle_platform_action(owner_user_id, action),
        ActionCategory::System => handle_system_action(owner_user_id, action, internal_user_id),
        ActionCategory::Chat => ActionStep::Respond(handle_chat_action(action)),
    }
}

/// The first step towards a message from a stranger.
pub fn handle_unauthorized(
    owner_user_id: &str,
    platform_user_id: &str,
    platform_type: PluginType,
    display_name: &str,
) -> (r: ActionStep)
    ensures
        r@ == (StepView::RequestPairing {
            owner_user_id: owner_user_id@,
            platform_user_id: platform_user_id@,
            platform_type,
            display_name: Some(display_name@),
        }),
{
    ActionStep::RequestPairing {
        owner_user_id: owner_user_id.to_owned(),
        platform_user_id: platform_user_id.to_owned(),
        platform_type,
        display_name: Some(display_name.to_owned()),
    }
}

/// Whose channel a message came through: its own owner, or else the default.
pub open spec fn owner_of(m: types::IncomingView, default_owner: Option<Seq<char>>) -> Option<Seq<char>> {
    match m.owner_user_id {
        Some(o) => Some(o),
        None => default_owner,
    }
}

/// Decides about incoming messages of a channel.
#[derive(Debug)]
pub struct ActionExecutor {
    owner_user_id: Option<String>,
}

impl ActionExecutor {
    /// The owner of messages that name none.
    pub closed spec fn default_owner(&self) -> Option<Seq<char>> {
        types::opt_text(self.owner_user_id)
    }

    /// Decides for a channel whose messages belong to `owner_user_id` where
    /// they name no owner.
    pub fn new(owner_user_id: Option<String>) -> (r: Self)
        ensures
            r.default_owner() == types::opt_text(owner_user_id),
    {
        ActionExecutor { owner_user_id }
    }

    /// The owner of messages that name none.
    pub fn owner_user_id(&self) -> (r: Option<&str>)
        ensures
            types::opt_str(r) == self.default_owner(),
    {
        types::borrow_opt(&self.owner_user_id)
    }

    /// Whose channel a message came through. Without an owner nothing can be
    /// looked up.
    pub fn message_owner(&self, msg: &UnifiedIncomingMessage) -> (r: Result<String, ChannelError>)
        ensures
            match r {
                Ok(o) => owner_of(msg@, self.default_owner()) == Some(o@),
                Err(e) => owner_of(msg@, self.default_owner()) is None && e@ == crate::error::ErrorView::InvalidConfig(
                    "channel owner user is required"@,
                ),
            },
    {
        match &msg.owner_user_id {
            Some(o) => Ok(o.clone()),
            None => match &self.owner_user_id {
                Some(o) => Ok(o.clone()),
                None => Err(ChannelError::InvalidConfig("channel owner user is required".to_owned())),
            },
        }
    }

    /// The next step of a message of this owner, once its sender has been
    /// looked up.
    pub fn handle_incoming_message(
        &self,
        owner_user_id: &str,
        msg: &UnifiedIncomingMessage,
        internal_user_id: Option<&str>,
    ) -> (r: ActionStep)
        ensures
            r@ == message_step(owner_user_id@, msg@, types::opt_str(internal_user_id)),
    {
        match internal_user_id {
            None => handle_unauthorized(
                owner_user_id,
                msg.user.id.as_str(),
                msg.platform,
                msg.user.display_name.as_str(),
            ),
            Some(id) => match &msg.action {
                Some(action) => route_action(owner_user_id, action, id),
                None => ActionStep::OpenSession {
                    owner_user_id: owner_user_id.to_owned(),
                    user_id: id.to_owned(),
                    chat_id: msg.chat_id.clone(),
                    platform: msg.platform,
                    purpose: SessionPurpose::Dispatch,
                },
            },
        }
    }
}

// ---------------------------------------------------------------------------
// Laws
// ---------------------------------------------------------------------------

/// A message of a stranger leads to pairing and to nothing else, whatever it
/// says.
pub proof fn law_strangers_only_pair(owner_user_id: Seq<char>, m: types::IncomingView)
    ensures
        message_step(owner_user_id, m, None) == (StepView::RequestPairing {
            owner_user_id,
            platform_user_id: m.user.id,
            platform_type: m.platform,
            display_name: Some(m.user.display_name),
        }),
{
}

/// Only a message of a known user that carries no action reaches an agent, and
/// it does so in that user's session of that chat.
pub proof fn law_dispatch_needs_authorization(owner_user_id: Seq<char>, m: types::IncomingView, user_id: Option<Seq<char>>)
    ensures
        (message_step(owner_user_id, m, user_id) matches StepView::OpenSession { purpose, .. } && purpose
            == SessionPurpose::Dispatch) <==> (user_id is Some && m.action is None),
        user_id is Some && m.action is None ==> message_step(owner_user_id, m, user_id) == (StepView::OpenSession {
            owner_user_id,
            user_id: user_id->0,
            chat_id: m.chat_id,
            platform: m.platform,
            purpose: SessionPurpose::Dispatch,
        }),
{
}

/// Whatever a message asks for is asked for in the name of its owner.
pub proof fn law_owner_is_kept(owner_user_id: Seq<char>, m: types::IncomingView, user_id: Option<Seq<char>>)
    ensures
        match message_step(owner_user_id, m, user_id) {
            StepView::RequestPairing { owner_user_id: o, .. } => o == owner_user_id,
            StepView::CheckAuthorized { owner_user_id: o, .. } => o == owner_user_id,
            StepView::OpenSession { owner_user_id: o, .. } => o == owner_user_id,
            StepView::Respond(_) => true,
        },
{
}

/// A session that a button opens is that of the user who pressed it, in the chat in
/// which it was pressed. Two buttons open one: one asks for a new session, the other
/// for a report on the one that there is.
pub proof fn law_buttons_open_the_session_of_their_chat(
    owner_user_id: Seq<char>,
    a: types::ActionView,
    user_id: Seq<char>,
)
    ensures
        match action_step(owner_user_id, a, user_id) {
            StepView::OpenSession { owner_user_id: o, user_id: u, chat_id, platform, purpose } => {
                &&& o == owner_user_id
                &&& u == user_id
                &&& chat_id == a.context.chat_id
                &&& platform == a.context.platform
                &&& a.action == "session.new"@ ==> purpose == SessionPurpose::New
                &&& a.action == "session.status"@ ==> purpose == SessionPurpose::Status
            },
            _ => true,
        },
        action_step(owner_user_id, a, user_id) is OpenSession <==> (a.category == ActionCategory::System && (a.action
            == "session.new"@ || a.action == "session.status"@)),
{
    reveal_strlit("session.new");
    reveal_strlit("session.status");
    assert("session.new"@[8] == 'n' && "session.status"@[8] == 's');
}

/// A code that a button asks for, and the question whether somebody is authorized,
/// are about the platform user who pressed it.
pub proof fn law_buttons_pair_who_presses_them(owner_user_id: Seq<char>, a: types::ActionView, user_id: Seq<char>)
    ensures
        match action_step(owner_user_id, a, user_id) {
            StepView::RequestPairing { owner_user_id: o, platform_user_id, platform_type, .. } => {
                &&& o == owner_user_id
                &&& platform_user_id == a.context.user_id
                &&& platform_type == a.context.platform
            },
            StepView::CheckAuthorized { owner_user_id: o, platform_user_id, platform_type } => {
                &&& o == owner_user_id
                &&& platform_user_id == a.context.user_id
                &&& platform_type == a.context.platform
            },
            _ => true,
        },
        action_step(owner_user_id, a, user_id) is RequestPairing <==> (a.category == ActionCategory::Platform && (
        a.action == "pairing.show"@ || a.action == "pairing.refresh"@)),
        action_step(owner_user_id, a, user_id) is CheckAuthorized <==> (a.category == ActionCategory::Platform
            && a.action == "pairing.check"@),
{
    reveal_strlit("pairing.show");
    reveal_strlit("pairing.refresh");
    reveal_strlit("pairing.check");
    assert("pairing.show"@[8] == 's' && "pairing.refresh"@[8] == 'r' && "pairing.check"@[8] == 'c');
}

/// Whether an action of a category has a meaning.
pub open spec fn has_meaning(category: ActionCategory, action: Seq<char>) -> bool {
    match category {
        ActionCategory::Platform => action == "pairing.show"@ || action == "pairing.refresh"@ || action
            == "pairing.check"@ || action == "pairing.help"@,
        ActionCategory::System => action == "session.new"@ || action == "session.status"@ || action == "help.show"@
            || action == "help.features"@ || action == "help.pairing"@ || action == "help.tips"@ || action
            == "settings.show"@,
        ActionCategory::Chat => action == "chat.send"@ || action == "chat.regenerate"@ || action == "chat.continue"@
            || action == "action.copy"@ || action == "system.confirm"@,
    }
}

/// An action without a meaning is answered with its name, and no other is answered so.
pub proof fn law_only_unknown_actions_are_unknown(owner_user_id: Seq<char>, a: types::ActionView, user_id: Seq<char>)
    ensures
        !has_meaning(a.category, a.action) <==> (action_step(owner_user_id, a, user_id) matches StepView::Respond(r)
            && r.text == Some("Unknown action: "@ + a.action)),
        !has_meaning(a.category, a.action) ==> (action_step(owner_user_id, a, user_id) matches StepView::Respond(r)
            && r.buttons is None && r.toast is None && r.behavior == ActionBehavior::Send),
{
    reveal_strlit("Unknown action: ");
    reveal_strlit("How can I help?\nChoose an option below or just send me a message.");
    reveal_strlit(
        "Features:\n• AI chat through your configured assistant\n• Tool execution with auto-approval\n• Session isolation per chat",
    );
    reveal_strlit("Pairing:\nSend any message → get a 6-digit code → admin approves → you're in!");
    reveal_strlit(
        "Tips:\n• Start a new session to clear context\n• Use /help to see available commands\n• In group chats, @mention the bot",
    );
    reveal_strlit(
        "Settings are managed in the desktop app.\nGo to Settings → Channel to configure plugins and manage users.",
    );
    reveal_strlit(
        "To use this bot, you need authorization:\n1. Send any message to get a 6-digit pairing code\n2. Share this code with the admin\n3. Admin approves in Settings → Channel\n4. You're ready to chat!",
    );
    let unknown = "Unknown action: "@ + a.action;
    assert(unknown[0] == 'U');
    if let StepView::Respond(r) = action_step(owner_user_id, a, user_id) {
        if has_meaning(a.category, a.action) {
            if let Some(t) = r.text {
                assert(t[0] != 'U');
            }
        }
    }
}

/// A call for help is answered with the topic that it names.
pub proof fn law_help_is_about_its_topic(owner_user_id: Seq<char>, a: types::ActionView, user_id: Seq<char>)
    requires
        a.category == ActionCategory::System,
    ensures
        ({
            let r = action_step(owner_user_id, a, user_id);
            &&& a.action == "help.show"@ ==> (r matches StepView::Respond(x) && x.text matches Some(t)
                && text::begins_with(t, "How can I help?"@))
            &&& a.action == "help.features"@ ==> (r matches StepView::Respond(x) && x.text matches Some(t)
                && text::begins_with(t, "Features:"@))
            &&& a.action == "help.pairing"@ ==> (r matches StepView::Respond(x) && x.text matches Some(t)
                && text::begins_with(t, "Pairing:"@))
            &&& a.action == "help.tips"@ ==> (r matches StepView::Respond(x) && x.text matches Some(t)
                && text::begins_with(t, "Tips:"@))
            &&& a.action == "settings.show"@ ==> (r matches StepView::Respond(x) && x.text matches Some(t)
                && text::begins_with(t, "Settings are managed in the desktop app."@))
        }),
{
    reveal_strlit("session.new");
    reveal_strlit("session.status");
    reveal_strlit("help.show");
    reveal_strlit("help.features");
    reveal_strlit("help.pairing");
    reveal_strlit("help.tips");
    reveal_strlit("settings.show");
    assert("session.new"@[0] == 's' && "session.status"@[0] == 's' && "session.new"@[3] == 's'
        && "session.status"@[3] == 's' && "settings.show"@[3] == 't');
    assert("help.show"@[5] == 's' && "help.features"@[5] == 'f' && "help.pairing"@[5] == 'p' && "help.tips"@[5] == 't'
        && "help.show"@[0] == 'h' && "help.features"@[0] == 'h' && "help.pairing"@[0] == 'h' && "help.tips"@[0] == 'h'
        && "settings.show"@[0] == 's');
    reveal_strlit("How can I help?");
    reveal_strlit("How can I help?\nChoose an option below or just send me a message.");
    assert("How can I help?\nChoose an option below or just send me a message."@.subrange(0, 15)
        =~= "How can I help?"@);
    reveal_strlit("Features:");
    reveal_strlit(
        "Features:\n• AI chat through your configured assistant\n• Tool execution with auto-approval\n• Session isolation per chat",
    );
    assert("Features:\n• AI chat through your configured assistant\n• Tool execution with auto-approval\n• Session isolation per chat"@.subrange(
        0,
        9,
    ) =~= "Features:"@);
    reveal_strlit("Pairing:");
    reveal_strlit("Pairing:\nSend any message → get a 6-digit code → admin approves → you're in!");
    assert("Pairing:\nSend any message → get a 6-digit code → admin approves → you're in!"@.subrange(0, 8)
        =~= "Pairing:"@);
    reveal_strlit("Tips:");
    reveal_strlit(
        "Tips:\n• Start a new session to clear context\n• Use /help to see available commands\n• In group chats, @mention the bot",
    );
    assert("Tips:\n• Start a new session to clear context\n• Use /help to see available commands\n• In group chats, @mention the bot"@.subrange(
        0,
        5,
    ) =~= "Tips:"@);
    reveal_strlit("Settings are managed in the desktop app.");
    reveal_strlit(
        "Settings are managed in the desktop app.\nGo to Settings → Channel to configure plugins and manage users.",
    );
    assert("Settings are managed in the desktop app.\nGo to Settings → Channel to configure plugins and manage users."@.subrange(
        0,
        40,
    ) =~= "Settings are managed in the desktop app."@);
}

/// A button about the conversation is answered with a note and no text; the
/// conversation goes on only for those that send, regenerate or continue.
pub proof fn law_chat_buttons_are_noted(owner_user_id: Seq<char>, a: types::ActionView, user_id: Seq<char>)
    requires
        a.category == ActionCategory::Chat,
        has_meaning(a.category, a.action),
    ensures
        action_step(owner_user_id, a, user_id) matches StepView::Respond(r) && {
            &&& r.text is None
            &&& r.buttons is None
            &&& r.behavior == ActionBehavior::Send <==> (a.action == "chat.send"@ || a.action == "chat.regenerate"@
                || a.action == "chat.continue"@)
            &&& a.action == "action.copy"@ ==> r.behavior == ActionBehavior::Answer && r.toast == Some(
                "Copied to clipboard"@,
            )
            &&& a.action == "system.confirm"@ ==> r.behavior == ActionBehavior::Answer && r.toast == Some("Confirmed"@)
            &&& r.behavior == ActionBehavior::Send ==> r.toast == Some("Processing..."@)
        },
{
    reveal_strlit("chat.send");
    reveal_strlit("chat.regenerate");
    reveal_strlit("chat.continue");
    reveal_strlit("action.copy");
    reveal_strlit("system.confirm");
    assert("chat.send"@[0] == 'c' && "chat.regenerate"@[0] == 'c' && "chat.continue"@[0] == 'c' && "action.copy"@[0]
        == 'a' && "system.confirm"@[0] == 's');
}

/// What a text goes to is the session that was got for it; a report names the
/// session by the beginning of its id, and its agent.
pub proof fn law_reports_are_about_the_session(
    purpose: SessionPurpose,
    owner_user_id: Seq<char>,
    session: types::SessionView,
)
    ensures
        match session_result(purpose, owner_user_id, session) {
            ResultView::Dispatched { owner_user_id: o, session_id, conversation_id } => {
                &&& purpose == SessionPurpose::Dispatch
                &&& o == owner_user_id
                &&& session_id == session.id
                &&& conversation_id == session.conversation_id
            },
            ResultView::Action(r) => {
                &&& purpose != SessionPurpose::Dispatch
                &&& r.text matches Some(t) && text::has_text(t, "Session: "@ + short_form(session.id)) && text::has_text(
                    t,
                    "Agent: "@ + session.agent_type,
                )
                &&& r.text matches Some(t) && (text::begins_with(t, "New session created."@) <==> purpose
                    == SessionPurpose::New)
                &&& r.behavior == ActionBehavior::Send
            },
            ResultView::AlreadyProcessing => false,
        },
        has_short_form(session.id) ==> encode_utf8(short_form(session.id)) == encode_utf8(session.id).take(8),
{
    reveal_strlit("New session created.");
    reveal_strlit("New session created.\nAgent: ");
    reveal_strlit("\nSession: ");
    reveal_strlit("\nAgent: ");
    reveal_strlit("Session: ");
    reveal_strlit("Agent: ");
    let id = short_form(session.id);
    let by = "Session: "@ + id;
    let of = "Agent: "@ + session.agent_type;
    let made = "New session created.\nAgent: "@ + session.agent_type + "\nSession: "@ + id;
    assert(made.subrange(0, 20) =~= "New session created."@);
    let a = 21int;
    assert(made.subrange(a, a + of.len()) =~= of);
    assert(text::occurs_at(made, of, a));
    let b = made.len() - by.len();
    assert(made.subrange(b, b + by.len()) =~= by);
    assert(text::occurs_at(made, by, b));
    let told = "Session: "@ + id + "\nAgent: "@ + session.agent_type + "\nCreated: "@ + text::int_text(
        session.created_at as int,
    ) + "\nLast active: "@ + text::int_text(session.last_activity as int);
    assert(told.subrange(0, by.len() as int) =~= by);
    assert(text::occurs_at(told, by, 0));
    let c: int = by.len() as int + 1;
    assert(told.subrange(c, c + of.len() as int) =~= of);
    assert(text::occurs_at(told, of, c));
    assert(told[0] == 'S');
    if text::begins_with(told, "New session created."@) {
        assert(told.subrange(0, 20)[0] == told[0]);
    }
    if has_short_form(session.id) {
        let bytes = encode_utf8(session.id);
        encode_utf8_valid_utf8(session.id);
        valid_utf8_split(bytes, 8);
        decode_utf8_encode_utf8(bytes.subrange(0, 8));
        assert(bytes.take(8) =~= bytes.subrange(0, 8));
    }
}

/// The invitation to pair shows the code.
pub proof fn law_invitation_shows_the_code(code: Seq<char>)
    ensures
        pairing_response(code).text matches Some(t) && text::has_text(t, "Your pairing code: *"@ + code + "*"@),
{
    reveal_strlit("Your pairing code: *");
    reveal_strlit("*");
    reveal_strlit("Welcome! To use this bot, you need authorization.\n\nYour pairing code: *");
    reveal_strlit(
        "*\n\nShare this code with the admin, who can approve it in Settings → Channel → Pairing Requests.\nThe code expires in 10 minutes.",
    );
    let t = pairing_response(code).text->0;
    let shown = "Your pairing code: *"@ + code + "*"@;
    assert(t.subrange(51, 51 + shown.len() as int) =~= shown);
    assert(text::occurs_at(t, shown, 51));
}

/// The category under which a button sends its action.
pub open spec fn sent_category(action: Seq<char>) -> ActionCategory {
    callback::category_of(callback::category_name(action))
}

proof fn lemma_prefix(action: Seq<char>, prefix: Seq<char>)
    requires
        action.len() > prefix.len(),
        action[prefix.len() as int] == '.',
        action.take(prefix.len() as int) == prefix,
        forall|i: int| 0 <= i < prefix.len() ==> prefix[i] != '.',
    ensures
        action.take(text::index_of_char(action, '.') as int) == prefix,
{
    assert forall|i: int| 0 <= i < prefix.len() implies action[i] != '.' by {
        assert(action.take(prefix.len() as int)[i] == prefix[i]);
    }
    text::lemma_index_unique(action, '.', prefix.len() as int);
}

/// Every action that has a meaning has it in the category under which a button sends
/// it.
pub proof fn law_buttons_send_what_is_understood(category: ActionCategory, action: Seq<char>)
    requires
        has_meaning(category, action),
    ensures
        sent_category(action) == category,
{
    reveal_strlit("platform");
    reveal_strlit("chat");
    reveal_strlit("pairing.show");
    reveal_strlit("pairing.refresh");
    reveal_strlit("pairing.check");
    reveal_strlit("pairing.help");
    reveal_strlit("session.new");
    reveal_strlit("session.status");
    reveal_strlit("help.show");
    reveal_strlit("help.features");
    reveal_strlit("help.pairing");
    reveal_strlit("help.tips");
    reveal_strlit("settings.show");
    reveal_strlit("chat.send");
    reveal_strlit("chat.regenerate");
    reveal_strlit("chat.continue");
    reveal_strlit("action.copy");
    reveal_strlit("system.confirm");
    reveal_strlit("action");
    reveal_strlit("chat");
    reveal_strlit("help");
    reveal_strlit("pairing");
    reveal_strlit("session");
    reveal_strlit("settings");
    reveal_strlit("system");
    if action == "pairing.show"@ {
        assert(action.take(7) =~= "pairing"@);
        lemma_prefix(action, "pairing"@);
    }
    if action == "pairing.refresh"@ {
        assert(action.take(7) =~= "pairing"@);
        lemma_prefix(action, "pairing"@);
    }
    if action == "pairing.check"@ {
        assert(action.take(7) =~= "pairing"@);
        lemma_prefix(action, "pairing"@);
    }
    if action == "pairing.help"@ {
        assert(action.take(7) =~= "pairing"@);
        lemma_prefix(action, "pairing"@);
    }
    if action == "session.new"@ {
        assert(action.take(7) =~= "session"@);
        lemma_prefix(action, "session"@);
    }
    if action == "session.status"@ {
        assert(action.take(7) =~= "session"@);
        lemma_prefix(action, "session"@);
    }
    if action == "help.show"@ {
        assert(action.take(4) =~= "help"@);
        lemma_prefix(action, "help"@);
    }
    if action == "help.features"@ {
        assert(action.take(4) =~= "help"@);
        lemma_prefix(action, "help"@);
    }
    if action == "help.pairing"@ {
        assert(action.take(4) =~= "help"@);
        lemma_prefix(action, "help"@);
    }
    if action == "help.tips"@ {
        assert(action.take(4) =~= "help"@);
        lemma_prefix(action, "help"@);
    }
    if action == "settings.show"@ {
        assert(action.take(8) =~= "settings"@);
        lemma_prefix(action, "settings"@);
    }
    if action == "chat.send"@ {
        assert(action.take(4) =~= "chat"@);
        lemma_prefix(action, "chat"@);
    }
    if action == "chat.regenerate"@ {
        assert(action.take(4) =~= "chat"@);
        lemma_prefix(action, "chat"@);
    }
    if action == "chat.continue"@ {
        assert(action.take(4) =~= "chat"@);
        lemma_prefix(action, "chat"@);
    }
    if action == "action.copy"@ {
        assert(action.take(6) =~= "action"@);
        lemma_prefix(action, "action"@);
    }
    assert("platform"@[0] == 'p' && "system"@[0] == 's' && "chat"@[0] == 'c');
    assert("pairing"@[0] == 'p' && "session"@[0] == 's' && "help"@[0] == 'h' && "settings"@[0] == 's' && "action"@[0] == 'a');
    assert("system.confirm"@.len() == 14 && "session.status"@.len() == 14 && "system.confirm"@[1] == 'y' && "session.status"@[1] == 'e');
}

/// Whether rows of buttons offer an action under a label: a button of that label is
/// there, and every button of that label sends that action, without parameters.
pub open spec fn offers(rows: Option<Seq<Seq<types::ButtonView>>>, label: Seq<char>, action: Seq<char>) -> bool {
    &&& rows is Some
    &&& exists|i: int, j: int| 0 <= i < rows->0.len() && 0 <= j < rows->0[i].len() && #[trigger] rows->0[i][j].label == label
    &&& forall|i: int, j: int|
        0 <= i < rows->0.len() && 0 <= j < rows->0[i].len() && #[trigger] rows->0[i][j].label == label
            ==> rows->0[i][j].action == action && rows->0[i][j].params is None
}

/// The buttons of a reply do what their labels say.
pub proof fn law_buttons_do_what_they_say(
    code: Seq<char>,
    answer: Seq<char>,
    owner_user_id: Seq<char>,
    session: types::SessionView,
)
    ensures
        offers(pairing_response(code).buttons, "Refresh Code"@, "pairing.refresh"@),
        offers(pairing_response(code).buttons, "Check Status"@, "pairing.check"@),
        offers(pairing_response(code).buttons, "Help"@, "pairing.help"@),
        offers(authorization_response(false).buttons, "Refresh"@, "pairing.refresh"@),
        offers(authorization_response(false).buttons, "Check Again"@, "pairing.check"@),
        authorization_response(true).buttons is None,
        offers(help_response().buttons, "New Session"@, "session.new"@),
        offers(help_response().buttons, "Session Status"@, "session.status"@),
        offers(help_response().buttons, "Features"@, "help.features"@),
        offers(help_response().buttons, "Tips"@, "help.tips"@),
        session_result(SessionPurpose::New, owner_user_id, session) matches ResultView::Action(r) && offers(
            r.buttons,
            "Help"@,
            "help.show"@,
        ),
        session_result(SessionPurpose::Status, owner_user_id, session) matches ResultView::Action(r) && offers(
            r.buttons,
            "New Session"@,
            "session.new"@,
        ),
        message_service::final_message(answer).text == Some(answer),
        offers(message_service::final_message(answer).buttons, "\u{1f504} Regenerate"@, "chat.regenerate"@),
        offers(message_service::final_message(answer).buttons, "\u{25b6}\u{fe0f} Continue"@, "chat.continue"@),
        offers(message_service::final_message(answer).buttons, "\u{2795} New Session"@, "session.new"@),
{
    reveal_strlit("Refresh Code");
    reveal_strlit("Check Status");
    reveal_strlit("Help");
    reveal_strlit("Refresh");
    reveal_strlit("Check Again");
    reveal_strlit("New Session");
    reveal_strlit("Session Status");
    reveal_strlit("Features");
    reveal_strlit("Tips");
    reveal_strlit("\u{1f504} Regenerate");
    reveal_strlit("\u{25b6}\u{fe0f} Continue");
    reveal_strlit("\u{2795} New Session");
    assert("Refresh Code"@[0] == 'R' && "Check Status"@[0] == 'C' && "Help"@[0] == 'H' && "Refresh"@[0] == 'R'
        && "Check Again"@[0] == 'C' && "New Session"@[0] == 'N' && "Session Status"@[0] == 'S' && "Features"@[0] == 'F'
        && "Tips"@[0] == 'T');
    assert("\u{1f504} Regenerate"@[0] == '\u{1f504}' && "\u{25b6}\u{fe0f} Continue"@[0] == '\u{25b6}'
        && "\u{2795} New Session"@[0] == '\u{2795}');
    let p = pairing_response(code).buttons->0;
    assert(p[0][0].label == "Refresh Code"@ && p[0][1].label == "Check Status"@ && p[0][2].label == "Help"@);
    let w = authorization_response(false).buttons->0;
    assert(w[0][0].label == "Refresh"@ && w[0][1].label == "Check Again"@);
    let h = help_response().buttons->0;
    assert(h[0][0].label == "New Session"@ && h[0][1].label == "Session Status"@ && h[1][0].label == "Features"@
        && h[1][1].label == "Tips"@);
    if let ResultView::Action(r) = session_result(SessionPurpose::New, owner_user_id, session) {
        assert(r.buttons->0[0][0].label == "Help"@);
    }
    if let ResultView::Action(r) = session_result(SessionPurpose::Status, owner_user_id, session) {
        assert(r.buttons->0[0][0].label == "New Session"@);
    }
    let f = message_service::final_message(answer).buttons->0;
    assert(f[0][0].label == "\u{1f504} Regenerate"@ && f[0][1].label == "\u{25b6}\u{fe0f} Continue"@ && f[0][2].label
        == "\u{2795} New Session"@);
}

/// A message belongs to the owner that it names, and to the default one where it names none.
pub proof fn law_messages_have_their_owner(m: types::IncomingView, default_owner: Option<Seq<char>>)
    ensures
        m.owner_user_id is Some ==> owner_of(m, default_owner) == m.owner_user_id,
        m.owner_user_id is None ==> owner_of(m, default_owner) == default_owner,
{
}

} // verus!
