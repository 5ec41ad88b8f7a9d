//! The WeChat plugin: its poll loop, the messages that come in and those that go
//! out.
use vstd::prelude::*;
use vstd::string::*;
use vstd::utf8::*;

use super::api;
use super::api::WeixinApi;
use super::contexts;
use super::contexts::Contexts;
use super::types::{GetUpdatesResponse, WeixinRawItem, WeixinRawMessage, ITEM_TYPE_TEXT, ITEM_TYPE_VOICE};
use crate::error;
use crate::error::ChannelError;
use crate::json;
use crate::json::{parse_node, JsonNode};
use crate::plugins::http;
use crate::plugins::http::HttpRequest;
use crate::plugins::lifecycle;
use crate::plugins::lifecycle::PluginState;
use crate::plugins::reconnect;
use crate::plugins::reconnect::capped_backoff;
use crate::random;
use crate::random::random_bytes;
use crate::text;
use crate::text::{cat3, cat4, i64_text, join, starts_with, trim};
use crate::types;
use crate::types::{
    borrow_opt, copy_nonempty, copy_or_empty, BotInfo, MessageContentType, PluginCredentials, PluginStatus, PluginType,
    UnifiedIncomingMessage, UnifiedMessageContent, UnifiedOutgoingMessage, UnifiedUser,
};

verus! {

/// Where the bot interface is, unless a plugin is told otherwise.
pub const DEFAULT_BASE_URL: &'static str = "https://ilinkai.weixin.qq.com";

/// The longest wait between two polls, in seconds.
pub const WEIXIN_MAX_BACKOFF: u64 = 600;

// ---------------------------------------------------------------------------
// Polling
// ---------------------------------------------------------------------------

/// The wait after so many failures in a row, in seconds.
pub fn backoff_delay(consecutive_failures: u32) -> (r: u64)
    ensures
        r == reconnect::backoff(consecutive_failures as nat, WEIXIN_MAX_BACKOFF as nat),
{
    capped_backoff(consecutive_failures, WEIXIN_MAX_BACKOFF)
}

/// What is worth noting about a poll.
#[derive(Clone, Copy, Debug, PartialEq, Eq, Structural)]
pub enum PollLogAction {
    Silent,
    StartedFailing,
    StillFailing,
    Recovered,
}

/// What is worth noting about a poll after so many failures in a row.
pub open spec fn log_action(prev_failures: u32, succeeded: bool) -> PollLogAction {
    if succeeded {
        if prev_failures == 0 {
            PollLogAction::Silent
        } else {
            PollLogAction::Recovered
        }
    } else if prev_failures == 0 {
        PollLogAction::StartedFailing
    } else {
        PollLogAction::StillFailing
    }
}

/// What is worth noting about a poll after so many failures in a row.
pub fn poll_log_action(prev_failures: u32, succeeded: bool) -> (r: PollLogAction)
    ensures
        r == log_action(prev_failures, succeeded),
{
    if succeeded {
        if prev_failures == 0 {
            PollLogAction::Silent
        } else {
            PollLogAction::Recovered
        }
    } else if prev_failures == 0 {
        PollLogAction::StartedFailing
    } else {
        PollLogAction::StillFailing
    }
}

/// How far polling came, and how many polls failed in a row.
#[derive(Debug)]
pub struct PollState {
    pub buf: String,
    pub consecutive_failures: u32,
}

/// How far polling came, and how many polls failed in a row.
pub struct PollView {
    pub buf: Seq<char>,
    pub consecutive_failures: u32,
}

impl View for PollState {
    type V = PollView;

    open spec fn view(&self) -> PollView {
        PollView { buf: self.buf@, consecutive_failures: self.consecutive_failures }
    }
}

/// What a poll leads to.
#[derive(Debug)]
pub enum PollStep {
    /// Handle the messages that came.
    Dispatch(Vec<WeixinRawMessage>, PollLogAction),
    /// Poll again after so many seconds; the reason is for the log.
    Wait(u64, String, PollLogAction),
}

/// What a poll leads to.
pub enum StepView {
    Dispatch(Seq<WeixinRawMessage>, PollLogAction),
    Wait(u64, Seq<char>, PollLogAction),
}

impl View for PollStep {
    type V = StepView;

    open spec fn view(&self) -> StepView {
        match self {
            PollStep::Dispatch(msgs, log) => StepView::Dispatch(msgs@, *log),
            PollStep::Wait(secs, reason, log) => StepView::Wait(*secs, reason@, *log),
        }
    }
}

/// An optional code in words.
pub open spec fn code_text(code: Option<i32>) -> Seq<char> {
    match code {
        Some(n) => "Some("@ + text::int_text(n as int) + ")"@,
        None => "None"@,
    }
}

fn code_words(code: Option<i32>) -> (r: String)
    ensures
        r@ == code_text(code),
{
    match code {
        Some(n) => cat3("Some(", i64_text(n as i64).as_str(), ")"),
        None => "None".to_owned(),
    }
}

/// Why a poll failed, if it did.
pub open spec fn poll_fault(reply: Result<GetUpdatesResponse, ChannelError>) -> Option<Seq<char>> {
    match reply {
        Err(e) => Some(error::error_text(e@)),
        Ok(resp) => if (resp.ret is Some && resp.ret->0 != 0) || (resp.errcode is Some && resp.errcode->0 != 0) {
            Some(
                "getupdates API error ret="@ + code_text(resp.ret) + " errcode="@ + code_text(resp.errcode),
            )
        } else {
            None
        },
    }
}

/// The messages that a poll brought.
pub open spec fn polled(resp: GetUpdatesResponse) -> Seq<WeixinRawMessage> {
    match resp.msgs {
        Some(v) => v@,
        None => Seq::empty(),
    }
}

/// How far polling came after a poll, and what the poll leads to.
pub open spec fn after_poll(s: PollView, reply: Result<GetUpdatesResponse, ChannelError>) -> (PollView, StepView) {
    match (poll_fault(reply), reply) {
        (None, Ok(resp)) => (
            PollView {
                buf: match resp.get_updates_buf {
                    Some(b) => b@,
                    None => s.buf,
                },
                consecutive_failures: 0,
            },
            StepView::Dispatch(polled(resp), log_action(s.consecutive_failures, true)),
        ),
        (fault, _) => {
            let failures = (s.consecutive_failures + 1) as u32;
            (
                PollView { consecutive_failures: failures, ..s },
                StepView::Wait(
                    reconnect::backoff(failures as nat, WEIXIN_MAX_BACKOFF as nat) as u64,
                    fault->0,
                    log_action(s.consecutive_failures, false),
                ),
            )
        },
    }
}

fn nonzero(code: Option<i32>) -> (r: bool)
    ensures
        r == (code is Some && code->0 != 0),
{
    match code {
        Some(n) => n != 0,
        None => false,
    }
}

impl PollState {
    /// Nothing was polled.
    pub fn new() -> (r: Self)
        ensures
            r@.buf.len() == 0,
            r@.consecutive_failures == 0,
    {
        PollState { buf: String::new(), consecutive_failures: 0 }
    }

    fn failed(&mut self, reason: String) -> (r: PollStep)
        requires
            old(self).consecutive_failures < u32::MAX,
        ensures
            final(self)@ == (PollView {
                consecutive_failures: (old(self).consecutive_failures + 1) as u32,
                ..old(self)@
            }),
            r@ == StepView::Wait(
                reconnect::backoff((old(self).consecutive_failures + 1) as nat, WEIXIN_MAX_BACKOFF as nat) as u64,
                reason@,
                log_action(old(self).consecutive_failures, false),
            ),
    {
        let log = poll_log_action(self.consecutive_failures, false);
        self.consecutive_failures = self.consecutive_failures + 1;
        PollStep::Wait(backoff_delay(self.consecutive_failures), reason, log)
    }

    /// Handles the reply to a poll: messages and progress, or a wait.
    pub fn step(&mut self, reply: Result<GetUpdatesResponse, ChannelError>) -> (r: PollStep)
        requires
            poll_fault(reply) is Some ==> old(self).consecutive_failures < u32::MAX,
        ensures
            (final(self)@, r@) == after_poll(old(self)@, reply),
    {
        match reply {
            Err(e) => self.failed(e.message()),
            Ok(resp) => if nonzero(resp.ret) || nonzero(resp.errcode) {
                let reason = cat4(
                    "getupdates API error ret=",
                    code_words(resp.ret).as_str(),
                    " errcode=",
                    code_words(resp.errcode).as_str(),
                );
                self.failed(reason)
            } else {
                let log = poll_log_action(self.consecutive_failures, true);
                self.consecutive_failures = 0;
                if let Some(b) = resp.get_updates_buf {
                    self.buf = b;
                }
                match resp.msgs {
                    Some(v) => PollStep::Dispatch(v, log),
                    None => PollStep::Dispatch(Vec::new(), log),
                }
            },
        }
    }
}

/// A poll that fails leaves the place at which polling goes on.
pub proof fn law_failure_keeps_the_place(s: PollView, reply: Result<GetUpdatesResponse, ChannelError>)
    requires
        poll_fault(reply) is Some,
    ensures
        after_poll(s, reply).0.buf == s.buf,
        after_poll(s, reply).1 is Wait,
{
}

/// A poll that succeeds ends a row of failures.
pub proof fn law_success_ends_failures(s: PollView, reply: Result<GetUpdatesResponse, ChannelError>)
    requires
        poll_fault(reply) is None,
    ensures
        after_poll(s, reply).0.consecutive_failures == 0,
        after_poll(s, reply).1 is Dispatch,
{
}

// ---------------------------------------------------------------------------
// Messages
// ---------------------------------------------------------------------------

/// A text without white space at its ends, unless nothing is left.
pub open spec fn trimmed_text(s: Option<Seq<char>>) -> Option<Seq<char>> {
    match s {
        Some(t) => types::nonempty(Some(text::trimmed(t))),
        None => None,
    }
}

/// The text of an item: what was written or said.
pub open spec fn item_text(item: WeixinRawItem) -> Option<Seq<char>> {
    if item.item_type == Some(ITEM_TYPE_TEXT) {
        match item.text_item {
            Some(t) => trimmed_text(types::opt_text(t.text)),
            None => None,
        }
    } else if item.item_type == Some(ITEM_TYPE_VOICE) {
        match item.voice_item {
            Some(v) => trimmed_text(types::opt_text(v.text)),
            None => None,
        }
    } else {
        None
    }
}

/// The texts of items, in their order.
pub open spec fn item_texts(items: Seq<WeixinRawItem>) -> Seq<Seq<char>>
    decreases items.len(),
{
    if items.len() == 0 {
        Seq::empty()
    } else {
        let before = item_texts(items.drop_last());
        match item_text(items.last()) {
            Some(t) => before.push(t),
            None => before,
        }
    }
}

/// Whether an item is an image or a file.
pub open spec fn is_media(item: WeixinRawItem) -> bool {
    item.item_type == Some(2i32) || item.item_type == Some(4i32)
}

/// The text of a message: the texts of its items, with an empty line between
/// them.
pub open spec fn message_text(items: Seq<WeixinRawItem>) -> Seq<char> {
    text::join_texts(item_texts(items), "\n\n"@)
}

/// The kind of a text.
pub open spec fn kind_of(s: Seq<char>) -> MessageContentType {
    if text::begins_with(s, "/"@) {
        MessageContentType::Command
    } else {
        MessageContentType::Text
    }
}

fn trim_opt(s: &Option<String>) -> (r: Option<String>)
    ensures
        types::opt_text(r) == trimmed_text(types::opt_text(*s)),
{
    match s {
        Some(t) => {
            let cut = trim(t.as_str());
            if cut.as_str().is_empty() {
                None
            } else {
                Some(cut)
            }
        },
        None => None,
    }
}

fn text_of(item: &WeixinRawItem) -> (r: Option<String>)
    ensures
        types::opt_text(r) == item_text(*item),
{
    match item.item_type {
        Some(kind) => if kind == ITEM_TYPE_TEXT {
            match &item.text_item {
                Some(t) => trim_opt(&t.text),
                None => None,
            }
        } else if kind == ITEM_TYPE_VOICE {
            match &item.voice_item {
                Some(v) => trim_opt(&v.text),
                None => None,
            }
        } else {
            None
        },
        None => None,
    }
}

fn media(item: &WeixinRawItem) -> (r: bool)
    ensures
        r == is_media(*item),
{
    match item.item_type {
        Some(kind) => kind == 2 || kind == 4,
        None => false,
    }
}

/// The kind and the text of a message, and whether it has images or files.
pub fn extract_content(items: &[WeixinRawItem]) -> (r: (MessageContentType, String, bool))
    ensures
        r.0 == kind_of(message_text(items@)),
        r.1@ == message_text(items@),
        r.2 == exists|i: int| 0 <= i < items@.len() && is_media(#[trigger] items@[i]),
{
    let mut parts: Vec<String> = Vec::new();
    let mut has_media: bool = false;
    let mut i: usize = 0;
    assert(items@.take(0) =~= Seq::<WeixinRawItem>::empty());
    assert(text::texts(parts@) =~= item_texts(items@.take(0)));
    while i < items.len()
        invariant
            i <= items.len(),
            text::texts(parts@) == item_texts(items@.take(i as int)),
            has_media == exists|k: int| 0 <= k < i && is_media(#[trigger] items@[k]),
        decreases items.len() - i,
    {
        let item: &WeixinRawItem = &items[i];
        assert(items@.take(i + 1).drop_last() =~= items@.take(i as int));
        assert(items@.take(i + 1).last() == items@[i as int]);
        let ghost before = parts@;
        if let Some(t) = text_of(item) {
            parts.push(t);
            assert(text::texts(parts@) =~= text::texts(before).push(t@));
        }
        if media(item) {
            has_media = true;
            assert(is_media(items@[i as int]));
        }
        i += 1;
    }
    assert(items@.take(items@.len() as int) =~= items@);
    let content = join(&parts, "\n\n");
    let kind = if starts_with(content.as_str(), "/") {
        MessageContentType::Command
    } else {
        MessageContentType::Text
    };
    (kind, content, has_media)
}

/// The items of a message.
pub open spec fn items_of(msg: WeixinRawMessage) -> Seq<WeixinRawItem> {
    match msg.item_list {
        Some(v) => v@,
        None => Seq::empty(),
    }
}

/// The name under which a user is shown: the last six bytes of the id.
pub open spec fn short_name(id: Seq<char>) -> Seq<char> {
    let bytes = encode_utf8(id);
    if bytes.len() > 6 {
        decode_utf8(bytes.subrange(bytes.len() - 6, bytes.len() as int))
    } else {
        id
    }
}

/// Whether the last six bytes of an id begin between two characters.
pub open spec fn has_short_name(id: Seq<char>) -> bool {
    encode_utf8(id).len() > 6 ==> is_char_boundary(encode_utf8(id), encode_utf8(id).len() - 6)
}

fn display_name(id: &str) -> (r: String)
    requires
        has_short_name(id@),
    ensures
        r@ == short_name(id@),
{
    let len: usize = id.as_bytes().len();
    if len > 6 {
        let (_, tail) = id.split_at(len - 6);
        proof {
            encode_utf8_decode_utf8(tail@);
        }
        tail.to_owned()
    } else {
        id.to_owned()
    }
}

/// The contexts after a message: its own under its sender, where it has one.
pub open spec fn contexts_after(m: Map<Seq<char>, Seq<char>>, msg: WeixinRawMessage) -> Map<Seq<char>, Seq<char>> {
    match types::nonempty(types::opt_text(msg.from_user_id)) {
        Some(from) => match types::nonempty(types::opt_text(msg.context_token)) {
            Some(context) => m.insert(from, context),
            None => m,
        },
        None => m,
    }
}

/// The message that a message of the platform stands for; none without a sender
/// or without text.
pub open spec fn message_view(msg: WeixinRawMessage, now: i64) -> Option<types::IncomingView> {
    let content = message_text(items_of(msg));
    match types::nonempty(types::opt_text(msg.from_user_id)) {
        Some(from) => if content.len() == 0 {
            None
        } else {
            Some(
                types::IncomingView {
                    owner_user_id: None,
                    id: types::text_or_empty(types::opt_text(msg.msg_id)),
                    platform: PluginType::Weixin,
                    chat_id: from,
                    user: types::UserView {
                        id: from,
                        username: None,
                        display_name: short_name(from),
                        avatar_url: None,
                    },
                    content: types::ContentView {
                        content_type: kind_of(content),
                        text: content,
                        attachments: None,
                    },
                    timestamp: now,
                    reply_to_message_id: None,
                    action: None,
                },
            )
        },
        None => None,
    }
}

/// Whether the sender of a message that is handed on can be named.
pub open spec fn sender_can_be_named(msg: WeixinRawMessage) -> bool {
    match types::nonempty(types::opt_text(msg.from_user_id)) {
        Some(from) => message_text(items_of(msg)).len() > 0 ==> has_short_name(from),
        None => true,
    }
}

/// Handles a message: its context is noted, and it is handed on where it has a
/// sender and text.
pub fn handle_message(contexts: &mut Contexts, msg: &WeixinRawMessage, now: i64) -> (r: Option<
    UnifiedIncomingMessage,
>)
    requires
        sender_can_be_named(*msg),
    ensures
        final(contexts)@ == contexts_after(old(contexts)@, *msg),
        (match r {
            Some(m) => Some(m@),
            None => None,
        }) == message_view(*msg, now),
{
    let from = match copy_nonempty(&msg.from_user_id) {
        Some(id) => id,
        None => {
            return None;
        },
    };
    if let Some(context) = copy_nonempty(&msg.context_token) {
        contexts.insert(from.as_str(), context.as_str());
    }
    let (content_type, content, _) = match &msg.item_list {
        Some(v) => extract_content(v.as_slice()),
        None => {
            let none: Vec<WeixinRawItem> = Vec::new();
            assert(none@ =~= items_of(*msg));
            extract_content(none.as_slice())
        },
    };
    if content.as_str().is_empty() {
        return None;
    }
    Some(
        UnifiedIncomingMessage {
            owner_user_id: None,
            id: copy_or_empty(&msg.msg_id),
            platform: PluginType::Weixin,
            chat_id: from.clone(),
            user: UnifiedUser {
                display_name: display_name(from.as_str()),
                id: from,
                username: None,
                avatar_url: None,
            },
            content: UnifiedMessageContent { content_type, text: content, attachments: None },
            timestamp: now,
            reply_to_message_id: None,
            action: None,
        },
    )
}

// ---------------------------------------------------------------------------
// The plugin
// ---------------------------------------------------------------------------

/// The WeChat plugin.
pub struct WeixinPlugin {
    pub state: PluginState<WeixinApi>,
    pub contexts: Contexts,
}

/// What a plugin needs to reach the bot interface.
#[derive(Debug)]
pub struct WeixinAccess {
    pub base_url: String,
    pub bot_token: String,
    pub account_id: String,
}

/// What is missing for an initialization, if anything.
pub open spec fn missing(credentials: PluginCredentials) -> Option<Seq<char>> {
    if types::nonempty(types::opt_text(credentials.bot_token)) is None {
        Some("Missing WeChat bot_token"@)
    } else if types::nonempty(types::opt_text(credentials.account_id)) is None {
        Some("Missing WeChat account_id"@)
    } else {
        None
    }
}

/// The address that a setting gives, where it is a text.
pub open spec fn base_url_from(setting: Option<json::NodeView>) -> Seq<char> {
    match json::node_str(setting) {
        Some(url) => url,
        None => DEFAULT_BASE_URL@,
    }
}

/// What is known of a bot from its account.
pub open spec fn account_view(account_id: Seq<char>) -> types::BotInfoView {
    types::BotInfoView { id: account_id, username: None, display_name: "WeChat Bot ("@ + account_id + ")"@ }
}

/// The setting that names the address.
pub open spec fn base_url_setting(credentials: PluginCredentials) -> Option<json::NodeView> {
    let extra = types::params_view(credentials.extra);
    if extra.dom().contains("baseUrl"@) {
        json::json_node(extra["baseUrl"@])
    } else {
        None
    }
}

/// The address that a setting gives, where it is a text.
pub fn base_url_of(setting: Option<JsonNode>) -> (r: String)
    ensures
        r@ == base_url_from(json::opt_node(setting)),
{
    match setting {
        Some(JsonNode::Text(url)) => url,
        _ => DEFAULT_BASE_URL.to_owned(),
    }
}

fn read_setting(credentials: &PluginCredentials) -> (r: Option<JsonNode>)
    ensures
        json::opt_node(r) == base_url_setting(*credentials),
{
    match credentials.extra.get("baseUrl") {
        Some(value) => parse_node(value.as_str()),
        None => None,
    }
}

/// The request that sends a message under an id, in the context of its chat.
pub open spec fn outgoing_request(
    a: WeixinApi,
    chat_id: Seq<char>,
    client_id: Seq<char>,
    message: types::OutgoingView,
    known: Map<Seq<char>, Seq<char>>,
) -> http::RequestView {
    api::message_request(
        a,
        chat_id,
        client_id,
        types::text_or_empty(message.text),
        contexts::context_of(known, chat_id),
    )
}

impl WeixinPlugin {
    /// A plugin to which nothing has happened.
    pub fn new() -> (r: Self)
        ensures
            r.state@ == lifecycle::created::<WeixinApi>(PluginType::Weixin),
            r.contexts@ == Map::<Seq<char>, Seq<char>>::empty(),
    {
        WeixinPlugin { state: PluginState::new(PluginType::Weixin), contexts: Contexts::new() }
    }

    /// Begins an initialization; it needs the token and the account of a bot.
    pub fn initialize(&mut self, credentials: &PluginCredentials) -> (r: Result<WeixinAccess, ChannelError>)
        ensures
            final(self).contexts == old(self).contexts,
            match missing(*credentials) {
                None => {
                    &&& r matches Ok(a) && Some(a.bot_token@) == types::opt_text(credentials.bot_token) && Some(
                        a.account_id@,
                    ) == types::opt_text(credentials.account_id) && a.base_url@ == base_url_from(
                        base_url_setting(*credentials),
                    )
                    &&& final(self).state@ == (lifecycle::StateView {
                        status: PluginStatus::Initializing,
                        ..old(self).state@
                    })
                },
                Some(what) => {
                    &&& r matches Err(e) && e@ == error::ErrorView::InvalidConfig(what)
                    &&& final(self).state@ == lifecycle::failed(old(self).state@, what)
                },
            },
    {
        self.state.begin();
        let bot_token = match copy_nonempty(&credentials.bot_token) {
            Some(t) => t,
            None => {
                self.state.fail("Missing WeChat bot_token".to_owned());
                return Err(ChannelError::InvalidConfig("Missing WeChat bot_token".to_owned()));
            },
        };
        let account_id = match copy_nonempty(&credentials.account_id) {
            Some(t) => t,
            None => {
                self.state.fail("Missing WeChat account_id".to_owned());
                return Err(ChannelError::InvalidConfig("Missing WeChat account_id".to_owned()));
            },
        };
        Ok(WeixinAccess { base_url: base_url_of(read_setting(credentials)), bot_token, account_id })
    }

    /// Ends an initialization.
    pub fn identified(&mut self, api: WeixinApi, account_id: &str)
        ensures
            final(self).contexts == old(self).contexts,
            final(self).state@ == lifecycle::made_ready(old(self).state@, account_view(account_id@), api),
    {
        self.state.ready(
            BotInfo {
                id: account_id.to_owned(),
                username: None,
                display_name: cat3("WeChat Bot (", account_id, ")"),
            },
            api,
        );
    }

    /// Starts the plugin; it polls since the initialization.
    pub fn start(&mut self)
        ensures
            final(self).contexts == old(self).contexts,
            final(self).state@ == (lifecycle::StateView { status: PluginStatus::Running, ..old(self).state@ }),
    {
        self.state.status = PluginStatus::Running;
    }

    /// Stops the plugin; it forgets every context.
    pub fn stop(&mut self)
        ensures
            final(self).state@ == lifecycle::stopped(old(self).state@),
            final(self).contexts@ == Map::<Seq<char>, Seq<char>>::empty(),
    {
        self.state.stop();
        self.contexts.clear();
    }

    /// The request that sends a message under the id that a random draw gives, in
    /// the context in which its user wrote last.
    pub fn send_message_drawn(
        &self,
        chat_id: &str,
        message: &UnifiedOutgoingMessage,
        draw: Result<[u8; 16], String>,
    ) -> (r: Result<HttpRequest, ChannelError>)
        ensures
            match (self.state.api, draw) {
                (Some(a), Ok(bytes)) => r matches Ok(q) && q@ == outgoing_request(
                    a,
                    chat_id@,
                    random::uuid_of(bytes@),
                    message@,
                    self.contexts@,
                ),
                (Some(_), Err(e)) => r matches Err(x) && x@ == error::ErrorView::MessageSendFailed(
                    random::draw_failure(e@),
                ),
                (None, _) => r matches Err(e) && e@ == error::ErrorView::PlatformApi("Plugin not initialized"@),
            },
    {
        match self.state.require_api() {
            Ok(a) => {
                let content = copy_or_empty(&message.text);
                let context = self.contexts.get(chat_id);
                a.send_message_drawn(chat_id, content.as_str(), borrow_opt(&context), draw)
            },
            Err(e) => Err(e),
        }
    }

    /// The request that sends a message under a random id, in the context in which
    /// its user wrote last. There is no editing: an edited message is sent again.
    pub fn send_message(&self, chat_id: &str, message: &UnifiedOutgoingMessage) -> (r: Result<
        HttpRequest,
        ChannelError,
    >)
        ensures
            match self.state.api {
                Some(a) => match r {
                    Ok(q) => exists|bytes: [u8; 16]|
                        q@ == outgoing_request(
                            a,
                            chat_id@,
                            #[trigger] random::uuid_of(bytes@),
                            message@,
                            self.contexts@,
                        ),
                    Err(e) => exists|why: Seq<char>|
                        e@ == error::ErrorView::MessageSendFailed(#[trigger] random::draw_failure(why)),
                },
                None => r matches Err(e) && e@ == error::ErrorView::PlatformApi("Plugin not initialized"@),
            },
    {
        self.send_message_drawn(chat_id, message, random_bytes())
    }
}

/// A message of one text comes through as that text, trimmed, from its sender and in the
/// chat with them; what was said counts as what was written.
pub proof fn law_text_comes_through(msg: WeixinRawMessage, item: WeixinRawItem, s: Seq<char>, now: i64)
    requires
        msg.item_list matches Some(v) && v@ == seq![item],
        msg.from_user_id matches Some(f) && f@.len() > 0,
        text::trimmed(s).len() > 0,
        (item.item_type == Some(1i32) && (item.text_item matches Some(t) && types::opt_text(t.text) == Some(s))) || (
        item.item_type == Some(3i32) && (item.voice_item matches Some(t) && types::opt_text(t.text) == Some(s))),
    ensures
        message_view(msg, now) matches Some(m) && {
            &&& m.content.text == text::trimmed(s)
            &&& m.content.content_type == MessageContentType::Command <==> text::trimmed(s)[0] == '/'
            &&& m.user.id == msg.from_user_id->0@
            &&& m.chat_id == msg.from_user_id->0@
            &&& m.platform == PluginType::Weixin
            &&& msg.msg_id is Some ==> m.id == msg.msg_id->0@
            &&& m.timestamp == now
            &&& m.action is None
        },
{
    reveal_strlit("/");
    assert("/"@ =~= seq!['/']);
    let items = seq![item];
    assert(items.drop_last().len() == 0);
    assert(item_texts(items.drop_last()) =~= Seq::<Seq<char>>::empty());
    let t = text::trimmed(s);
    assert(item_text(item) == Some(t));
    assert(item_texts(items) =~= seq![t]);
    assert(text::join_texts(seq![t], "\n\n"@) == t);
    assert(t.subrange(0, 1)[0] == t[0]);
    assert(t[0] == '/' ==> t.subrange(0, 1) =~= "/"@);
}

/// The texts of two items stand with an empty line between them.
pub proof fn law_texts_stand_apart(items: Seq<WeixinRawItem>, item: WeixinRawItem, s: Seq<char>)
    requires
        item_texts(items).len() > 0,
        item_text(item) == Some(s),
    ensures
        message_text(items.push(item)) == message_text(items) + "\n\n"@ + s,
{
    assert(items.push(item).drop_last() =~= items);
    let before = item_texts(items);
    assert(before.push(s).drop_last() =~= before);
    text::lemma_join_pushed(before, s, "\n\n"@);
}

/// A message without a sender, and one without text, is none.
pub proof fn law_silence_is_no_message(msg: WeixinRawMessage, now: i64)
    ensures
        message_view(msg, now) is Some ==> (msg.from_user_id matches Some(f) && f@.len() > 0),
        message_view(msg, now) matches Some(m) ==> m.content.text.len() > 0,
        msg.item_list is None ==> message_view(msg, now) is None,
{
    if msg.item_list is None {
        assert(item_texts(items_of(msg)) =~= Seq::<Seq<char>>::empty());
        assert(text::join_texts(item_texts(items_of(msg)), "\n\n"@).len() == 0);
    }
}

/// An answer goes to whoever wrote, in the context of their last message that had one.
pub proof fn law_answer_is_in_context(
    a: WeixinApi,
    known: Map<Seq<char>, Seq<char>>,
    msg: WeixinRawMessage,
    client_id: Seq<char>,
    message: types::OutgoingView,
)
    requires
        msg.from_user_id matches Some(f) && f@.len() > 0,
        msg.context_token matches Some(c) && c@.len() > 0,
        message.text is Some,
    ensures
        outgoing_request(a, msg.from_user_id->0@, client_id, message, contexts_after(known, msg))
            == api::message_request(
            a,
            msg.from_user_id->0@,
            client_id,
            message.text->0,
            Some(msg.context_token->0@),
        ),
        forall|other: Seq<char>|
            other != msg.from_user_id->0@ ==> #[trigger] contexts::context_of(contexts_after(known, msg), other)
                == contexts::context_of(known, other),
{
}

/// The messages of a poll that succeeded are handled, all of them and in their order, and
/// the next poll goes on where it says; one that failed is tried again after its wait.
pub proof fn law_poll_is_handled(s: PollView, reply: Result<GetUpdatesResponse, ChannelError>)
    requires
        s.consecutive_failures < u32::MAX,
    ensures
        ({
            let ok = match reply {
                Ok(r) => (r.ret is None || r.ret == Some(0i32)) && (r.errcode is None || r.errcode == Some(0i32)),
                Err(_) => false,
            };
            let (next, step) = after_poll(s, reply);
            &&& step is Dispatch <==> ok
            &&& ok ==> next.consecutive_failures == 0
            &&& ok && reply->Ok_0.msgs is Some ==> (step matches StepView::Dispatch(msgs, _) && msgs
                == reply->Ok_0.msgs->0@)
            &&& ok && reply->Ok_0.get_updates_buf is Some ==> next.buf == reply->Ok_0.get_updates_buf->0@
            &&& ok && reply->Ok_0.get_updates_buf is None ==> next.buf == s.buf
            &&& !ok ==> next.buf == s.buf && next.consecutive_failures == s.consecutive_failures + 1
            &&& !ok ==> (step matches StepView::Wait(secs, _, _) && secs == reconnect::backoff(
                (s.consecutive_failures + 1) as nat,
                600,
            ))
            &&& reply matches Err(e) ==> (step matches StepView::Wait(_, why, _) && why == error::error_text(e@))
        }),
{
    reconnect::law_wait_is_bounded((s.consecutive_failures + 1) as nat, WEIXIN_MAX_BACKOFF as nat);
}

/// Only a change between failing and working is loud: the first failure and the first
/// success after failures.
pub proof fn law_changes_are_noted(prev_failures: u32)
    ensures
        log_action(prev_failures, false) == PollLogAction::StartedFailing <==> prev_failures == 0,
        log_action(prev_failures, true) == PollLogAction::Recovered <==> prev_failures > 0,
        prev_failures == 0 ==> log_action(prev_failures, true) == PollLogAction::Silent,
        prev_failures > 0 ==> log_action(prev_failures, false) == PollLogAction::StillFailing,
{
}

/// Credentials are enough exactly if both the token and the account of a bot are there
/// and not empty.
pub proof fn law_both_credentials_are_needed(credentials: PluginCredentials)
    ensures
        missing(credentials) is None <==> {
            &&& credentials.bot_token matches Some(t) && t@.len() > 0
            &&& credentials.account_id matches Some(a) && a@.len() > 0
        },
        credentials.bot_token is None ==> missing(credentials) == Some("Missing WeChat bot_token"@),
        (credentials.bot_token matches Some(x) && x@.len() > 0) && credentials.account_id is None ==> missing(credentials) == Some(
            "Missing WeChat account_id"@,
        ),
{
}

/// The name of a user is the end of their id: its last six bytes, or all of them.
pub proof fn law_short_name_is_the_end(id: Seq<char>)
    requires
        has_short_name(id),
    ensures
        encode_utf8(id).len() <= 6 ==> short_name(id) == id,
        encode_utf8(id).len() > 6 ==> encode_utf8(short_name(id)) == encode_utf8(id).skip(encode_utf8(id).len() - 6),
{
    let bytes = encode_utf8(id);
    encode_utf8_valid_utf8(id);
    if bytes.len() > 6 {
        let n = bytes.len() - 6;
        valid_utf8_split(bytes, n);
        assert(bytes.skip(n) =~= bytes.subrange(n, bytes.len() as int));
        decode_utf8_encode_utf8(bytes.subrange(n, bytes.len() as int));
    }
}

/// A bot is known by its account, and shown with it.
pub proof fn law_bot_has_its_account(account_id: Seq<char>)
    ensures
        account_view(account_id).id == account_id,
        account_view(account_id).username is None,
        account_view(account_id).display_name == "WeChat Bot ("@ + account_id + ")"@,
{
}

/// The address that the settings give is used, and the usual one where they give none.
pub proof fn law_address_is_what_the_settings_say(credentials: PluginCredentials, url: Seq<char>)
    ensures
        ({
            let extra = types::params_view(credentials.extra);
            let used = base_url_from(base_url_setting(credentials));
            &&& extra.dom().contains("baseUrl"@) && json::json_node(extra["baseUrl"@]) == Some(
                json::NodeView::Text(url),
            ) ==> used == url
            &&& !extra.dom().contains("baseUrl"@) ==> used == "https://ilinkai.weixin.qq.com"@
        }),
{
}

/// Pictures and files count as media, and texts and voices do not.
pub proof fn law_pictures_and_files_are_media(item: WeixinRawItem)
    ensures
        is_media(item) <==> item.item_type == Some(2i32) || item.item_type == Some(4i32),
        is_media(item) ==> item_text(item) is None,
{
}

} // verus!
