//! The platform-independent vocabulary: what comes in, what goes out, and what
//! a plugin is.
use vstd::prelude::*;
use vstd::string::*;

use crate::text::str_eq;
use crate::text_map::TextMap;

verus! {

// ---------------------------------------------------------------------------
// Optional text
// ---------------------------------------------------------------------------

/// The characters of an optional string.
pub open spec fn opt_text(s: Option<String>) -> Option<Seq<char>> {
    match s {
        Some(t) => Some(t@),
        None => None,
    }
}

/// The characters of an optional string slice.
pub open spec fn opt_str(s: Option<&str>) -> Option<Seq<char>> {
    match s {
        Some(t) => Some(t@),
        None => None,
    }
}

/// A copy of an optional string.
pub fn copy_opt(s: &Option<String>) -> (r: Option<String>)
    ensures
        opt_text(r) == opt_text(*s),
{
    match s {
        Some(t) => Some(t.clone()),
        None => None,
    }
}

/// Borrows an optional string.
pub fn borrow_opt(s: &Option<String>) -> (r: Option<&str>)
    ensures
        opt_str(r) == opt_text(*s),
{
    match s {
        Some(t) => Some(t.as_str()),
        None => None,
    }
}

/// The optional text, or the empty one.
pub open spec fn text_or_empty(s: Option<Seq<char>>) -> Seq<char> {
    match s {
        Some(t) => t,
        None => Seq::empty(),
    }
}

/// A copy of an optional string, or the empty one.
pub fn copy_or_empty(s: &Option<String>) -> (r: String)
    ensures
        r@ == text_or_empty(opt_text(*s)),
{
    match s {
        Some(t) => t.clone(),
        None => String::new(),
    }
}

/// The optional text, unless it is empty.
pub open spec fn nonempty(s: Option<Seq<char>>) -> Option<Seq<char>> {
    match s {
        Some(t) => if t.len() == 0 {
            None
        } else {
            Some(t)
        },
        None => None,
    }
}

/// A copy of an optional string, unless it is empty.
pub fn copy_nonempty(s: &Option<String>) -> (r: Option<String>)
    ensures
        opt_text(r) == nonempty(opt_text(*s)),
{
    match s {
        Some(t) => if t.as_str().is_empty() {
            None
        } else {
            Some(t.clone())
        },
        None => None,
    }
}

// ---------------------------------------------------------------------------
// Plugins
// ---------------------------------------------------------------------------

/// A chat platform.
#[derive(Clone, Copy, Debug, PartialEq, Eq, Hash, Structural)]
pub enum PluginType {
    Telegram,
    Lark,
    Dingtalk,
    Weixin,
    Slack,
    Discord,
}

/// The name of a platform.
pub open spec fn plugin_type_text(t: PluginType) -> Seq<char> {
    match t {
        PluginType::Telegram => "telegram"@,
        PluginType::Lark => "lark"@,
        PluginType::Dingtalk => "dingtalk"@,
        PluginType::Weixin => "weixin"@,
        PluginType::Slack => "slack"@,
        PluginType::Discord => "discord"@,
    }
}

impl PluginType {
    /// The name of this platform.
    pub fn as_str(&self) -> (r: &'static str)
        ensures
            r@ == plugin_type_text(*self),
    {
        match self {
            PluginType::Telegram => "telegram",
            PluginType::Lark => "lark",
            PluginType::Dingtalk => "dingtalk",
            PluginType::Weixin => "weixin",
            PluginType::Slack => "slack",
            PluginType::Discord => "discord",
        }
    }

    /// The platform of a name.
    pub fn from_str_opt(s: &str) -> (r: Option<PluginType>)
        ensures
            match r {
                Some(t) => s@ == plugin_type_text(t),
                None => forall|t: PluginType| s@ != #[trigger] plugin_type_text(t),
            },
    {
        if str_eq(s, "telegram") {
            Some(PluginType::Telegram)
        } else if str_eq(s, "lark") {
            Some(PluginType::Lark)
        } else if str_eq(s, "dingtalk") {
            Some(PluginType::Dingtalk)
        } else if str_eq(s, "weixin") {
            Some(PluginType::Weixin)
        } else if str_eq(s, "slack") {
            Some(PluginType::Slack)
        } else if str_eq(s, "discord") {
            Some(PluginType::Discord)
        } else {
            None
        }
    }
}

/// No two platforms share a name.
pub proof fn law_plugin_type_names_differ(a: PluginType, b: PluginType)
    ensures
        plugin_type_text(a) == plugin_type_text(b) ==> a == b,
{
    reveal_strlit("telegram");
    reveal_strlit("lark");
    reveal_strlit("dingtalk");
    reveal_strlit("weixin");
    reveal_strlit("slack");
    reveal_strlit("discord");
    assert(plugin_type_text(PluginType::Slack)[0] == 's');
    assert(plugin_type_text(PluginType::Telegram)[0] == 't');
    assert(plugin_type_text(PluginType::Dingtalk)[2] == 'n');
    assert(plugin_type_text(PluginType::Discord)[2] == 's');
    assert(plugin_type_text(PluginType::Weixin)[0] == 'w');
    assert(plugin_type_text(PluginType::Lark)[0] == 'l');
    assert(plugin_type_text(PluginType::Dingtalk)[0] == 'd');
    assert(plugin_type_text(PluginType::Discord)[0] == 'd');
}

/// Where a plugin is in its life.
#[derive(Clone, Copy, Debug, PartialEq, Eq, Structural)]
pub enum PluginStatus {
    Created,
    Initializing,
    Ready,
    Starting,
    Running,
    Stopping,
    Stopped,
    Error,
}

/// The name of a status.
pub open spec fn plugin_status_text(s: PluginStatus) -> Seq<char> {
    match s {
        PluginStatus::Created => "created"@,
        PluginStatus::Initializing => "initializing"@,
        PluginStatus::Ready => "ready"@,
        PluginStatus::Starting => "starting"@,
        PluginStatus::Running => "running"@,
        PluginStatus::Stopping => "stopping"@,
        PluginStatus::Stopped => "stopped"@,
        PluginStatus::Error => "error"@,
    }
}

impl PluginStatus {
    /// The name of this status.
    pub fn as_str(&self) -> (r: &'static str)
        ensures
            r@ == plugin_status_text(*self),
    {
        match self {
            PluginStatus::Created => "created",
            PluginStatus::Initializing => "initializing",
            PluginStatus::Ready => "ready",
            PluginStatus::Starting => "starting",
            PluginStatus::Running => "running",
            PluginStatus::Stopping => "stopping",
            PluginStatus::Stopped => "stopped",
            PluginStatus::Error => "error",
        }
    }
}

/// Who the bot is on its platform.
#[derive(Debug, PartialEq, Eq)]
pub struct BotInfo {
    pub id: String,
    pub username: Option<String>,
    pub display_name: String,
}

/// What a bot identity holds.
pub struct BotInfoView {
    pub id: Seq<char>,
    pub username: Option<Seq<char>>,
    pub display_name: Seq<char>,
}

impl View for BotInfo {
    type V = BotInfoView;

    open spec fn view(&self) -> BotInfoView {
        BotInfoView { id: self.id@, username: opt_text(self.username), display_name: self.display_name@ }
    }
}

/// The secrets with which a plugin connects.
#[derive(Debug)]
pub struct PluginCredentials {
    pub token: Option<String>,
    pub app_id: Option<String>,
    pub app_secret: Option<String>,
    pub encrypt_key: Option<String>,
    pub verification_token: Option<String>,
    pub client_id: Option<String>,
    pub client_secret: Option<String>,
    pub account_id: Option<String>,
    pub bot_token: Option<String>,
    pub app_token: Option<String>,
    /// Further settings, each the text of a document.
    pub extra: Params,
}

// ---------------------------------------------------------------------------
// Actions
// ---------------------------------------------------------------------------

/// Parameters of an action, by name.
pub type Params = TextMap<String>;

/// What parameters hold.
pub open spec fn params_view(p: Params) -> Map<Seq<char>, Seq<char>> {
    p@.map_values(|s: String| s@)
}

/// What optional parameters hold.
pub open spec fn opt_params_view(p: Option<Params>) -> Option<Map<Seq<char>, Seq<char>>> {
    match p {
        Some(m) => Some(params_view(m)),
        None => None,
    }
}

/// A copy of parameters.
pub fn copy_params(p: &Params) -> (r: Params)
    ensures
        params_view(r) == params_view(*p),
{
    let mut out: Params = TextMap::new();
    let mut i: usize = 0;
    while i < p.len()
        invariant
            i <= p.pairs().len(),
            forall|key: Seq<char>| #[trigger]
                out@.dom().contains(key) <==> exists|k: int| 0 <= k < i && (#[trigger] p.pairs()[k]).0@ == key,
            forall|key: Seq<char>| #[trigger]
                out@.dom().contains(key) ==> p@.dom().contains(key) && out@[key]@ == p@[key]@,
        decreases p.pairs().len() - i,
    {
        let pair: &(String, String) = p.entry(i);
        let ghost before = out@;
        out.insert(pair.0.as_str(), pair.1.clone());
        proof {
            assert(p.pairs()[i as int] == *pair);
            assert forall|key: Seq<char>| #[trigger] out@.dom().contains(key) implies exists|k: int|
                0 <= k < i + 1 && (#[trigger] p.pairs()[k]).0@ == key by {
                if before.dom().contains(key) {
                    let k = choose|k: int| 0 <= k < i && (#[trigger] p.pairs()[k]).0@ == key;
                    assert(p.pairs()[k].0@ == key);
                } else {
                    assert(p.pairs()[i as int].0@ == key);
                }
            }
            assert forall|key: Seq<char>|
                (exists|k: int| 0 <= k < i + 1 && (#[trigger] p.pairs()[k]).0@ == key) implies #[trigger] out@.dom().contains(
                key,
            ) by {
                let k = choose|k: int| 0 <= k < i + 1 && (#[trigger] p.pairs()[k]).0@ == key;
                if k < i {
                    assert(before.dom().contains(key));
                }
            }
        }
        i += 1;
    }
    proof {
        p.lemma_keys();
        assert(params_view(out) =~= params_view(*p));
    }
    out
}

/// A copy of optional parameters.
pub fn copy_opt_params(p: &Option<Params>) -> (r: Option<Params>)
    ensures
        opt_params_view(r) == opt_params_view(*p),
{
    match p {
        Some(m) => Some(copy_params(m)),
        None => None,
    }
}

/// Who answers an action.
#[derive(Clone, Copy, Debug, PartialEq, Eq, Structural)]
pub enum ActionCategory {
    Platform,
    System,
    Chat,
}

/// What to do with a response.
#[derive(Clone, Copy, Debug, PartialEq, Eq, Structural)]
pub enum ActionBehavior {
    Send,
    Edit,
    Answer,
}

/// How a platform is to read the text of a message.
#[derive(Clone, Copy, Debug, PartialEq, Eq, Structural)]
pub enum ParseMode {
    Html,
    Markdown,
}

/// A button under a message.
#[derive(Debug)]
pub struct ActionButton {
    pub label: String,
    pub action: String,
    pub params: Option<Params>,
}

/// What a button holds.
#[verifier::ext_equal]
pub struct ButtonView {
    pub label: Seq<char>,
    pub action: Seq<char>,
    pub params: Option<Map<Seq<char>, Seq<char>>>,
}

impl View for ActionButton {
    type V = ButtonView;

    open spec fn view(&self) -> ButtonView {
        ButtonView { label: self.label@, action: self.action@, params: opt_params_view(self.params) }
    }
}

/// What a row of buttons holds.
pub open spec fn row_view(row: Vec<ActionButton>) -> Seq<ButtonView> {
    row@.map_values(|b: ActionButton| b@)
}

/// What rows of buttons hold.
pub open spec fn rows_view(rows: Vec<Vec<ActionButton>>) -> Seq<Seq<ButtonView>> {
    rows@.map_values(|r: Vec<ActionButton>| row_view(r))
}

/// What optional rows of buttons hold.
pub open spec fn opt_rows_view(rows: Option<Vec<Vec<ActionButton>>>) -> Option<Seq<Seq<ButtonView>>> {
    match rows {
        Some(r) => Some(rows_view(r)),
        None => None,
    }
}

/// A button without parameters.
pub open spec fn button_view(label: Seq<char>, action: Seq<char>) -> ButtonView {
    ButtonView { label, action, params: None }
}

/// A button without parameters.
pub fn button(label: &str, action: &str) -> (r: ActionButton)
    ensures
        r@ == button_view(label@, action@),
{
    ActionButton { label: label.to_owned(), action: action.to_owned(), params: None }
}

fn copy_row(row: &Vec<ActionButton>) -> (r: Vec<ActionButton>)
    ensures
        row_view(r) == row_view(*row),
{
    let mut out: Vec<ActionButton> = Vec::new();
    let mut i: usize = 0;
    while i < row.len()
        invariant
            i <= row.len(),
            out@.len() == i,
            forall|k: int| 0 <= k < i ==> (#[trigger] out@[k])@ == row@[k]@,
        decreases row.len() - i,
    {
        let b: &ActionButton = &row[i];
        let copy = ActionButton { label: b.label.clone(), action: b.action.clone(), params: copy_opt_params(&b.params) };
        assert(copy@ == b@);
        out.push(copy);
        i += 1;
    }
    assert(row_view(out) =~= row_view(*row));
    out
}

/// A copy of optional rows of buttons.
pub fn copy_rows(rows: &Option<Vec<Vec<ActionButton>>>) -> (r: Option<Vec<Vec<ActionButton>>>)
    ensures
        opt_rows_view(r) == opt_rows_view(*rows),
{
    match rows {
        None => None,
        Some(all) => {
            let mut out: Vec<Vec<ActionButton>> = Vec::new();
            let mut i: usize = 0;
            while i < all.len()
                invariant
                    i <= all.len(),
                    out@.len() == i,
                    forall|k: int| 0 <= k < i ==> row_view(#[trigger] out@[k]) == row_view(all@[k]),
                decreases all.len() - i,
            {
                out.push(copy_row(&all[i]));
                i += 1;
            }
            assert(rows_view(out) =~= rows_view(*all));
            Some(out)
        },
    }
}

/// The reply to an action.
#[derive(Debug)]
pub struct ActionResponse {
    pub text: Option<String>,
    pub parse_mode: Option<ParseMode>,
    pub buttons: Option<Vec<Vec<ActionButton>>>,
    pub keyboard: Option<Vec<Vec<String>>>,
    pub behavior: ActionBehavior,
    pub toast: Option<String>,
    pub edit_message_id: Option<String>,
}

/// What a keyboard holds: the words on its keys.
pub open spec fn keyboard_view(k: Option<Vec<Vec<String>>>) -> Option<Seq<Seq<Seq<char>>>> {
    match k {
        Some(rows) => Some(rows@.map_values(|r: Vec<String>| r@.map_values(|s: String| s@))),
        None => None,
    }
}

/// A copy of a keyboard.
pub fn copy_keyboard(k: &Option<Vec<Vec<String>>>) -> (r: Option<Vec<Vec<String>>>)
    ensures
        keyboard_view(r) == keyboard_view(*k),
{
    match k {
        None => None,
        Some(rows) => {
            let ghost words = |r: Vec<String>| r@.map_values(|s: String| s@);
            let mut out: Vec<Vec<String>> = Vec::new();
            let mut i: usize = 0;
            while i < rows.len()
                invariant
                    i <= rows.len(),
                    out@.len() == i,
                    words == (|r: Vec<String>| r@.map_values(|s: String| s@)),
                    forall|n: int| 0 <= n < i ==> words(#[trigger] out@[n]) == words(rows@[n]),
                decreases rows.len() - i,
            {
                let row: &Vec<String> = &rows[i];
                let mut copy: Vec<String> = Vec::new();
                let mut j: usize = 0;
                while j < row.len()
                    invariant
                        j <= row.len(),
                        copy@.len() == j,
                        forall|n: int| 0 <= n < j ==> (#[trigger] copy@[n])@ == row@[n]@,
                    decreases row.len() - j,
                {
                    copy.push(row[j].clone());
                    j += 1;
                }
                assert(words(copy) =~= words(*row));
                out.push(copy);
                i += 1;
            }
            assert(out@.map_values(words) =~= rows@.map_values(words));
            Some(out)
        },
    }
}

/// What a response holds.
#[verifier::ext_equal]
pub struct ResponseView {
    pub text: Option<Seq<char>>,
    pub parse_mode: Option<ParseMode>,
    pub buttons: Option<Seq<Seq<ButtonView>>>,
    pub keyboard: Option<Seq<Seq<Seq<char>>>>,
    pub behavior: ActionBehavior,
    pub toast: Option<Seq<char>>,
    pub edit_message_id: Option<Seq<char>>,
}

impl View for ActionResponse {
    type V = ResponseView;

    open spec fn view(&self) -> ResponseView {
        ResponseView {
            text: opt_text(self.text),
            parse_mode: self.parse_mode,
            buttons: opt_rows_view(self.buttons),
            keyboard: keyboard_view(self.keyboard),
            behavior: self.behavior,
            toast: opt_text(self.toast),
            edit_message_id: opt_text(self.edit_message_id),
        }
    }
}

/// Where an action was triggered, and by whom.
#[derive(Debug)]
pub struct ActionContext {
    pub platform: PluginType,
    pub user_id: String,
    pub chat_id: String,
    pub message_id: Option<String>,
    pub session_id: Option<String>,
}

/// What an action's context holds.
pub struct ContextView {
    pub platform: PluginType,
    pub user_id: Seq<char>,
    pub chat_id: Seq<char>,
    pub message_id: Option<Seq<char>>,
    pub session_id: Option<Seq<char>>,
}

impl View for ActionContext {
    type V = ContextView;

    open spec fn view(&self) -> ContextView {
        ContextView {
            platform: self.platform,
            user_id: self.user_id@,
            chat_id: self.chat_id@,
            message_id: opt_text(self.message_id),
            session_id: opt_text(self.session_id),
        }
    }
}

/// An action that a user triggered.
#[derive(Debug)]
pub struct UnifiedAction {
    pub action: String,
    pub category: ActionCategory,
    pub params: Option<Params>,
    pub context: ActionContext,
}

/// What an action holds.
#[verifier::ext_equal]
pub struct ActionView {
    pub action: Seq<char>,
    pub category: ActionCategory,
    pub params: Option<Map<Seq<char>, Seq<char>>>,
    pub context: ContextView,
}

impl View for UnifiedAction {
    type V = ActionView;

    open spec fn view(&self) -> ActionView {
        ActionView {
            action: self.action@,
            category: self.category,
            params: opt_params_view(self.params),
            context: self.context@,
        }
    }
}

// ---------------------------------------------------------------------------
// Incoming messages
// ---------------------------------------------------------------------------

/// Who sent a message.
#[derive(Debug, PartialEq, Eq)]
pub struct UnifiedUser {
    pub id: String,
    pub username: Option<String>,
    pub display_name: String,
    pub avatar_url: Option<String>,
}

/// What a user holds.
pub struct UserView {
    pub id: Seq<char>,
    pub username: Option<Seq<char>>,
    pub display_name: Seq<char>,
    pub avatar_url: Option<Seq<char>>,
}

impl View for UnifiedUser {
    type V = UserView;

    open spec fn view(&self) -> UserView {
        UserView {
            id: self.id@,
            username: opt_text(self.username),
            display_name: self.display_name@,
            avatar_url: opt_text(self.avatar_url),
        }
    }
}

/// What kind of content a message has.
#[derive(Clone, Copy, Debug, PartialEq, Eq, Structural)]
pub enum MessageContentType {
    Text,
    Command,
    Action,
    Photo,
    Document,
    Audio,
    Video,
}

/// A file that came with a message.
#[derive(Debug, PartialEq, Eq)]
pub struct UnifiedAttachment {
    pub file_id: Option<String>,
    pub file_name: Option<String>,
    pub mime_type: Option<String>,
    pub file_size: Option<u64>,
    pub url: Option<String>,
}

/// What an attachment holds.
pub struct AttachmentView {
    pub file_id: Option<Seq<char>>,
    pub file_name: Option<Seq<char>>,
    pub mime_type: Option<Seq<char>>,
    pub file_size: Option<u64>,
    pub url: Option<Seq<char>>,
}

impl View for UnifiedAttachment {
    type V = AttachmentView;

    open spec fn view(&self) -> AttachmentView {
        AttachmentView {
            file_id: opt_text(self.file_id),
            file_name: opt_text(self.file_name),
            mime_type: opt_text(self.mime_type),
            file_size: self.file_size,
            url: opt_text(self.url),
        }
    }
}

/// What optional attachments hold.
pub open spec fn attachments_view(a: Option<Vec<UnifiedAttachment>>) -> Option<Seq<AttachmentView>> {
    match a {
        Some(v) => Some(v@.map_values(|x: UnifiedAttachment| x@)),
        None => None,
    }
}

/// The content of a message.
#[derive(Debug, PartialEq, Eq)]
pub struct UnifiedMessageContent {
    pub content_type: MessageContentType,
    pub text: String,
    pub attachments: Option<Vec<UnifiedAttachment>>,
}

/// What a content holds.
#[verifier::ext_equal]
pub struct ContentView {
    pub content_type: MessageContentType,
    pub text: Seq<char>,
    pub attachments: Option<Seq<AttachmentView>>,
}

impl View for UnifiedMessageContent {
    type V = ContentView;

    open spec fn view(&self) -> ContentView {
        ContentView {
            content_type: self.content_type,
            text: self.text@,
            attachments: attachments_view(self.attachments),
        }
    }
}

/// A message of whatever platform.
#[derive(Debug)]
pub struct UnifiedIncomingMessage {
    pub owner_user_id: Option<String>,
    pub id: String,
    pub platform: PluginType,
    pub chat_id: String,
    pub user: UnifiedUser,
    pub content: UnifiedMessageContent,
    pub timestamp: i64,
    pub reply_to_message_id: Option<String>,
    pub action: Option<UnifiedAction>,
}

/// What a message holds.
#[verifier::ext_equal]
pub struct IncomingView {
    pub owner_user_id: Option<Seq<char>>,
    pub id: Seq<char>,
    pub platform: PluginType,
    pub chat_id: Seq<char>,
    pub user: UserView,
    pub content: ContentView,
    pub timestamp: i64,
    pub reply_to_message_id: Option<Seq<char>>,
    pub action: Option<ActionView>,
}

impl View for UnifiedIncomingMessage {
    type V = IncomingView;

    open spec fn view(&self) -> IncomingView {
        IncomingView {
            owner_user_id: opt_text(self.owner_user_id),
            id: self.id@,
            platform: self.platform,
            chat_id: self.chat_id@,
            user: self.user@,
            content: self.content@,
            timestamp: self.timestamp,
            reply_to_message_id: opt_text(self.reply_to_message_id),
            action: match self.action {
                Some(a) => Some(a@),
                None => None,
            },
        }
    }
}

// ---------------------------------------------------------------------------
// Outgoing messages
// ---------------------------------------------------------------------------

/// What kind of message goes out.
#[derive(Clone, Copy, Debug, PartialEq, Eq, Structural)]
pub enum OutgoingMessageType {
    Text,
    Buttons,
}

/// A message for whatever platform.
#[derive(Debug)]
pub struct UnifiedOutgoingMessage {
    pub message_type: OutgoingMessageType,
    pub text: Option<String>,
    pub parse_mode: Option<ParseMode>,
    pub buttons: Option<Vec<Vec<ActionButton>>>,
    pub keyboard: Option<Vec<Vec<String>>>,
    pub image_url: Option<String>,
    pub file_url: Option<String>,
    pub file_name: Option<String>,
    pub media_actions: Option<Vec<Vec<ActionButton>>>,
    pub reply_to_message_id: Option<String>,
    pub silent: Option<bool>,
}

/// What an outgoing message holds.
#[verifier::ext_equal]
pub struct OutgoingView {
    pub message_type: OutgoingMessageType,
    pub text: Option<Seq<char>>,
    pub parse_mode: Option<ParseMode>,
    pub buttons: Option<Seq<Seq<ButtonView>>>,
    pub keyboard: Option<Seq<Seq<Seq<char>>>>,
    pub image_url: Option<Seq<char>>,
    pub file_url: Option<Seq<char>>,
    pub file_name: Option<Seq<char>>,
    pub media_actions: Option<Seq<Seq<ButtonView>>>,
    pub reply_to_message_id: Option<Seq<char>>,
    pub silent: Option<bool>,
}

impl View for UnifiedOutgoingMessage {
    type V = OutgoingView;

    open spec fn view(&self) -> OutgoingView {
        OutgoingView {
            message_type: self.message_type,
            text: opt_text(self.text),
            parse_mode: self.parse_mode,
            buttons: opt_rows_view(self.buttons),
            keyboard: keyboard_view(self.keyboard),
            image_url: opt_text(self.image_url),
            file_url: opt_text(self.file_url),
            file_name: opt_text(self.file_name),
            media_actions: opt_rows_view(self.media_actions),
            reply_to_message_id: opt_text(self.reply_to_message_id),
            silent: self.silent,
        }
    }
}

/// A message of plain text.
pub open spec fn text_message_view(text: Seq<char>) -> OutgoingView {
    OutgoingView {
        message_type: OutgoingMessageType::Text,
        text: Some(text),
        parse_mode: None,
        buttons: None,
        keyboard: None,
        image_url: None,
        file_url: None,
        file_name: None,
        media_actions: None,
        reply_to_message_id: None,
        silent: None,
    }
}

/// A message of plain text.
pub fn text_message(text: String) -> (r: UnifiedOutgoingMessage)
    ensures
        r@ == text_message_view(text@),
{
    UnifiedOutgoingMessage {
        message_type: OutgoingMessageType::Text,
        text: Some(text),
        parse_mode: None,
        buttons: None,
        keyboard: None,
        image_url: None,
        file_url: None,
        file_name: None,
        media_actions: None,
        reply_to_message_id: None,
        silent: None,
    }
}

// ---------------------------------------------------------------------------
// Sessions
// ---------------------------------------------------------------------------

/// A user's session with an agent in one chat.
#[derive(Debug, PartialEq, Eq)]
pub struct AssistantSession {
    pub id: String,
    pub user_id: String,
    pub agent_type: String,
    pub conversation_id: Option<String>,
    pub chat_id: Option<String>,
    pub created_at: i64,
    pub last_activity: i64,
}

/// What a session holds.
pub struct SessionView {
    pub id: Seq<char>,
    pub user_id: Seq<char>,
    pub agent_type: Seq<char>,
    pub conversation_id: Option<Seq<char>>,
    pub chat_id: Option<Seq<char>>,
    pub created_at: i64,
    pub last_activity: i64,
}

impl View for AssistantSession {
    type V = SessionView;

    open spec fn view(&self) -> SessionView {
        SessionView {
            id: self.id@,
            user_id: self.user_id@,
            agent_type: self.agent_type@,
            conversation_id: opt_text(self.conversation_id),
            chat_id: opt_text(self.chat_id),
            created_at: self.created_at,
            last_activity: self.last_activity,
        }
    }
}

} // verus!
