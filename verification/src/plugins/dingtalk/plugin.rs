//! The DingTalk plugin: its stream, the events that come in and the messages
//! that go out.
use vstd::prelude::*;
use vstd::string::*;

use super::api;
use super::api::{put_card_fields, DingtalkApi, RobotInfoResponse};
use super::types as wire;
use super::types::{
    encode_chat_id, format_dingtalk_callback, parse_dingtalk_callback, AckHeaders, BotMessageCallback,
    CardActionCallback, StreamAck, StreamFrame,
};
use crate::error;
use crate::error::ChannelError;
use crate::json;
use crate::json::{find_member, list, object, parse_opt, Json, JsonNode};
use crate::plugins::callback;
use crate::plugins::callback::{confirmation, trigger_action};
use crate::plugins::http;
use crate::plugins::http::{HttpRequest, Method};
use crate::plugins::lifecycle;
use crate::plugins::lifecycle::PluginState;
use crate::plugins::reconnect;
use crate::plugins::reconnect::StreamAttempts;
use crate::plugins::time;
use crate::plugins::time::seconds_of;
use crate::text;
use crate::text::{cat, cat3, cat4, i64_text, starts_with, str_eq, truncate_message, u64_text};
use crate::types;
use crate::types::{
    borrow_opt, copy_nonempty, copy_or_empty, ActionButton, ActionContext, BotInfo, MessageContentType,
    PluginCredentials, PluginStatus, PluginType, UnifiedIncomingMessage, UnifiedMessageContent,
    UnifiedOutgoingMessage, UnifiedUser,
};

verus! {

// ---------------------------------------------------------------------------
// Frames
// ---------------------------------------------------------------------------

/// The answer to a frame with an id.
pub open spec fn ack_view(message_id: Seq<char>, data: Seq<char>) -> wire::AckView {
    wire::AckView { code: 200, content_type: "application/json"@, message_id, message: "OK"@, data }
}

fn ack_with(message_id: &str, data: String) -> (r: StreamAck)
    ensures
        r@ == ack_view(message_id@, data@),
{
    StreamAck {
        code: 200,
        headers: AckHeaders { content_type: "application/json".to_owned(), message_id: message_id.to_owned() },
        message: "OK".to_owned(),
        data,
    }
}

/// The answer that reports success.
pub open spec fn success_ack(message_id: Seq<char>) -> wire::AckView {
    ack_view(message_id, "{\"response\":\"SUCCESS\"}"@)
}

/// The answer that reports success.
pub fn build_ack(message_id: &str) -> (r: StreamAck)
    ensures
        r@ == success_ack(message_id@),
{
    ack_with(message_id, "{\"response\":\"SUCCESS\"}".to_owned())
}

/// What a frame is about; each variant carries the text of a document.
#[derive(Debug)]
pub enum StreamWork {
    Nothing,
    BotMessage(String),
    CardAction(String),
}

/// What a frame is about.
pub enum WorkView {
    Nothing,
    BotMessage(Seq<char>),
    CardAction(Seq<char>),
}

impl View for StreamWork {
    type V = WorkView;

    open spec fn view(&self) -> WorkView {
        match self {
            StreamWork::Nothing => WorkView::Nothing,
            StreamWork::BotMessage(s) => WorkView::BotMessage(s@),
            StreamWork::CardAction(s) => WorkView::CardAction(s@),
        }
    }
}

/// The id of a frame, empty where it has none.
pub open spec fn frame_id(f: StreamFrame) -> Seq<char> {
    types::text_or_empty(types::opt_text(f.headers.message_id))
}

/// The answer to a frame: a ping gets its data back, events and callbacks get a
/// success, anything else gets none.
pub open spec fn answer(f: StreamFrame) -> Option<wire::AckView> {
    if f.frame_type@ == "SYSTEM"@ {
        if types::opt_text(f.headers.topic) == Some("ping"@) {
            Some(
                ack_view(
                    frame_id(f),
                    match f.data {
                        Some(d) => d@,
                        None => "{}"@,
                    },
                ),
            )
        } else {
            None
        }
    } else if f.frame_type@ == "CALLBACK"@ || f.frame_type@ == "EVENT"@ {
        Some(ack_view(frame_id(f), "{\"response\":\"SUCCESS\"}"@))
    } else {
        None
    }
}

/// What a frame is about: a callback of a known topic.
pub open spec fn work_of(f: StreamFrame) -> WorkView {
    let data = types::text_or_empty(types::opt_text(f.data));
    if f.frame_type@ != "CALLBACK"@ {
        WorkView::Nothing
    } else if types::opt_text(f.headers.topic) == Some("/v1.0/im/bot/messages/get"@) {
        WorkView::BotMessage(data)
    } else if types::opt_text(f.headers.topic) == Some("/v1.0/card/instances/callback"@) {
        WorkView::CardAction(data)
    } else {
        WorkView::Nothing
    }
}

/// What an optional answer holds.
pub open spec fn opt_ack(a: Option<StreamAck>) -> Option<wire::AckView> {
    match a {
        Some(x) => Some(x@),
        None => None,
    }
}

proof fn lemma_frame_types_differ()
    ensures
        "SYSTEM"@ != "CALLBACK"@,
        "EVENT"@ != "CALLBACK"@,
        "SYSTEM"@ != "EVENT"@,
        "/v1.0/im/bot/messages/get"@ != "/v1.0/card/instances/callback"@,
{
    reveal_strlit("SYSTEM");
    reveal_strlit("CALLBACK");
    reveal_strlit("EVENT");
    reveal_strlit("/v1.0/im/bot/messages/get");
    reveal_strlit("/v1.0/card/instances/callback");
    assert("SYSTEM"@[0] == 'S');
    assert("CALLBACK"@[0] == 'C');
    assert("EVENT"@[0] == 'E');
    assert("/v1.0/im/bot/messages/get"@[6] == 'i');
    assert("/v1.0/card/instances/callback"@[6] == 'c');
}

fn has_topic(f: &StreamFrame, topic: &str) -> (r: bool)
    ensures
        r == (types::opt_text(f.headers.topic) == Some(topic@)),
{
    match &f.headers.topic {
        Some(t) => str_eq(t.as_str(), topic),
        None => false,
    }
}

/// Handles a frame: what it is about, and the answer to send.
pub fn handle_stream_frame(f: &StreamFrame) -> (r: (Option<StreamAck>, StreamWork))
    ensures
        opt_ack(r.0) == answer(*f),
        r.1@ == work_of(*f),
{
    proof {
        lemma_frame_types_differ();
    }
    let message_id = copy_or_empty(&f.headers.message_id);
    if str_eq(f.frame_type.as_str(), "SYSTEM") {
        if has_topic(f, "ping") {
            let data = match &f.data {
                Some(d) => d.clone(),
                None => "{}".to_owned(),
            };
            (Some(ack_with(message_id.as_str(), data)), StreamWork::Nothing)
        } else {
            (None, StreamWork::Nothing)
        }
    } else if str_eq(f.frame_type.as_str(), "CALLBACK") {
        let data = copy_or_empty(&f.data);
        let work = if has_topic(f, "/v1.0/im/bot/messages/get") {
            StreamWork::BotMessage(data)
        } else if has_topic(f, "/v1.0/card/instances/callback") {
            StreamWork::CardAction(data)
        } else {
            StreamWork::Nothing
        };
        (Some(build_ack(message_id.as_str())), work)
    } else if str_eq(f.frame_type.as_str(), "EVENT") {
        (Some(build_ack(message_id.as_str())), StreamWork::Nothing)
    } else {
        (None, StreamWork::Nothing)
    }
}

/// Every callback is answered under its own id, whatever it is about.
pub proof fn law_callbacks_are_answered(f: StreamFrame)
    requires
        f.frame_type@ == "CALLBACK"@,
    ensures
        answer(f) == Some(ack_view(frame_id(f), "{\"response\":\"SUCCESS\"}"@)),
{
    lemma_frame_types_differ();
}

// ---------------------------------------------------------------------------
// The connection
// ---------------------------------------------------------------------------

/// What happens on a connection.
#[derive(Debug)]
pub enum StreamEvent {
    Frame(StreamFrame),
    Unreadable,
    Ping,
    Close,
    ReadError(String),
    Ended,
    OtherMessage,
    Shutdown,
}

/// What the connection does about it.
#[derive(Debug)]
pub enum StreamStep {
    Nothing,
    /// Handle what the frame is about, then send the answer.
    Handle(StreamWork, Option<String>),
    Pong,
    /// End the connection without a failure.
    Finish,
    Fail(ChannelError),
}

/// What a step holds.
pub enum StepView {
    Nothing,
    Handle(WorkView, Option<Seq<char>>),
    Pong,
    Finish,
    Fail(error::ErrorView),
}

impl View for StreamStep {
    type V = StepView;

    open spec fn view(&self) -> StepView {
        match self {
            StreamStep::Nothing => StepView::Nothing,
            StreamStep::Handle(work, ack) => StepView::Handle(work@, types::opt_text(*ack)),
            StreamStep::Pong => StepView::Pong,
            StreamStep::Finish => StepView::Finish,
            StreamStep::Fail(e) => StepView::Fail(e@),
        }
    }
}

/// What an event leads to.
pub open spec fn step_of(event: StreamEvent) -> StepView {
    match event {
        StreamEvent::Frame(f) => StepView::Handle(
            work_of(f),
            match answer(f) {
                Some(a) => Some(json::json_text(wire::ack_json(a))),
                None => None,
            },
        ),
        StreamEvent::Unreadable => StepView::Nothing,
        StreamEvent::Ping => StepView::Pong,
        StreamEvent::Close => StepView::Finish,
        StreamEvent::ReadError(e) => StepView::Fail(
            error::ErrorView::ConnectionFailed("DingTalk WS read error: "@ + e@),
        ),
        StreamEvent::Ended => StepView::Fail(
            error::ErrorView::ConnectionFailed("DingTalk WS stream ended unexpectedly"@),
        ),
        StreamEvent::OtherMessage => StepView::Nothing,
        StreamEvent::Shutdown => StepView::Finish,
    }
}

/// Whether an event shows that the connection has come up: something arrived on it
/// other than its end.
pub open spec fn shows_connection(event: StreamEvent) -> bool {
    match event {
        StreamEvent::Frame(_) | StreamEvent::Unreadable | StreamEvent::Ping | StreamEvent::OtherMessage => true,
        StreamEvent::Close | StreamEvent::ReadError(_) | StreamEvent::Ended | StreamEvent::Shutdown => false,
    }
}

/// Notes what an event says about the connection: once something has arrived, the
/// failures before are forgotten.
pub fn note_event(attempts: &mut StreamAttempts, event: &StreamEvent)
    ensures
        final(attempts)@ == if shows_connection(*event) {
            reconnect::no_failures()
        } else {
            old(attempts)@
        },
{
    match event {
        StreamEvent::Frame(_) | StreamEvent::Unreadable | StreamEvent::Ping | StreamEvent::OtherMessage => {
            attempts.came_up();
        },
        StreamEvent::Close | StreamEvent::ReadError(_) | StreamEvent::Ended | StreamEvent::Shutdown => {},
    }
}

/// Handles what happens on the connection.
pub fn step(event: &StreamEvent) -> (r: StreamStep)
    ensures
        r@ == step_of(*event),
{
    match event {
        StreamEvent::Frame(f) => {
            let (ack, work) = handle_stream_frame(f);
            let text = match ack {
                Some(a) => Some(a.to_text()),
                None => None,
            };
            StreamStep::Handle(work, text)
        },
        StreamEvent::Unreadable => StreamStep::Nothing,
        StreamEvent::Ping => StreamStep::Pong,
        StreamEvent::Close => StreamStep::Finish,
        StreamEvent::ReadError(e) => StreamStep::Fail(
            ChannelError::ConnectionFailed(cat("DingTalk WS read error: ", e.as_str())),
        ),
        StreamEvent::Ended => StreamStep::Fail(
            ChannelError::ConnectionFailed("DingTalk WS stream ended unexpectedly".to_owned()),
        ),
        StreamEvent::OtherMessage => StreamStep::Nothing,
        StreamEvent::Shutdown => StreamStep::Finish,
    }
}

// ---------------------------------------------------------------------------
// Messages
// ---------------------------------------------------------------------------

/// The content of a message of a type.
pub open spec fn content_of(msgtype: Seq<char>, cb: BotMessageCallback) -> (MessageContentType, Seq<char>) {
    if msgtype == "text"@ {
        let s = match cb.text {
            Some(t) => types::text_or_empty(types::opt_text(t.content)),
            None => Seq::empty(),
        };
        if text::begins_with(s, "/"@) {
            (MessageContentType::Command, s)
        } else {
            (MessageContentType::Text, s)
        }
    } else if msgtype == "picture"@ {
        (MessageContentType::Photo, "[Picture]"@)
    } else if msgtype == "file"@ {
        (MessageContentType::Document, "[File]"@)
    } else if msgtype == "audio"@ {
        (MessageContentType::Audio, "[Audio]"@)
    } else if msgtype == "video"@ {
        (MessageContentType::Video, "[Video]"@)
    } else {
        (MessageContentType::Text, "[Unsupported message type: "@ + msgtype + "]"@)
    }
}

/// The content of a message of a type.
pub fn extract_message_content(msgtype: &str, cb: &BotMessageCallback) -> (r: (MessageContentType, String))
    ensures
        (r.0, r.1@) == content_of(msgtype@, *cb),
{
    if str_eq(msgtype, "text") {
        let s = match &cb.text {
            Some(t) => copy_or_empty(&t.content),
            None => String::new(),
        };
        if starts_with(s.as_str(), "/") {
            (MessageContentType::Command, s)
        } else {
            (MessageContentType::Text, s)
        }
    } else if str_eq(msgtype, "picture") {
        (MessageContentType::Photo, "[Picture]".to_owned())
    } else if str_eq(msgtype, "file") {
        (MessageContentType::Document, "[File]".to_owned())
    } else if str_eq(msgtype, "audio") {
        (MessageContentType::Audio, "[Audio]".to_owned())
    } else if str_eq(msgtype, "video") {
        (MessageContentType::Video, "[Video]".to_owned())
    } else {
        (MessageContentType::Text, cat3("[Unsupported message type: ", msgtype, "]"))
    }
}

/// Who sent a message: by the id in the company, by the id of the platform, or
/// unknown.
pub open spec fn sender_of(cb: BotMessageCallback) -> Seq<char> {
    match cb.sender_staff_id {
        Some(id) => id@,
        None => match cb.sender_id {
            Some(id) => id@,
            None => "unknown"@,
        },
    }
}

fn sender(cb: &BotMessageCallback) -> (r: String)
    ensures
        r@ == sender_of(*cb),
{
    match &cb.sender_staff_id {
        Some(id) => id.clone(),
        None => match &cb.sender_id {
            Some(id) => id.clone(),
            None => "unknown".to_owned(),
        },
    }
}

/// The type of a message; text where none is given.
pub open spec fn type_of(cb: BotMessageCallback) -> Seq<char> {
    match cb.msgtype {
        Some(t) => t@,
        None => "text"@,
    }
}

/// The message that a callback stands for.
pub open spec fn message_view(cb: BotMessageCallback, now: i64) -> types::IncomingView {
    let (content_type, content) = content_of(type_of(cb), cb);
    types::IncomingView {
        owner_user_id: None,
        id: types::text_or_empty(types::opt_text(cb.msg_id)),
        platform: PluginType::Dingtalk,
        chat_id: wire::chat_id_of(
            types::opt_text(cb.conversation_type),
            types::opt_text(cb.conversation_id),
            sender_of(cb),
        ),
        user: types::UserView {
            id: sender_of(cb),
            username: None,
            display_name: types::text_or_empty(types::opt_text(cb.sender_nick)),
            avatar_url: None,
        },
        content: types::ContentView { content_type, text: content, attachments: None },
        timestamp: match cb.create_at {
            Some(ms) => time::whole_seconds(ms as int) as i64,
            None => now,
        },
        reply_to_message_id: None,
        action: None,
    }
}

/// The message that a callback stands for.
pub fn handle_bot_message(cb: &BotMessageCallback, now: i64) -> (r: UnifiedIncomingMessage)
    ensures
        r@ == message_view(*cb, now),
{
    let id = sender(cb);
    let msgtype = match &cb.msgtype {
        Some(t) => t.clone(),
        None => "text".to_owned(),
    };
    let (content_type, content) = extract_message_content(msgtype.as_str(), cb);
    let timestamp: i64 = match cb.create_at {
        Some(ms) => seconds_of(ms),
        None => now,
    };
    UnifiedIncomingMessage {
        owner_user_id: None,
        id: copy_or_empty(&cb.msg_id),
        platform: PluginType::Dingtalk,
        chat_id: encode_chat_id(borrow_opt(&cb.conversation_type), borrow_opt(&cb.conversation_id), id.as_str()),
        user: UnifiedUser { id, username: None, display_name: copy_or_empty(&cb.sender_nick), avatar_url: None },
        content: UnifiedMessageContent { content_type, text: content, attachments: None },
        timestamp,
        reply_to_message_id: None,
        action: None,
    }
}

/// The chat in which a button was pressed: the group, or the user.
pub open spec fn card_chat(cb: CardActionCallback) -> Seq<char> {
    match types::nonempty(types::opt_text(cb.open_conversation_id)) {
        Some(id) => "group:"@ + id,
        None => "user:"@ + types::text_or_empty(types::opt_text(cb.user_id)),
    }
}

/// The message that a pressed button stands for.
pub open spec fn card_view(cb: CardActionCallback, action: Seq<char>, now: i64) -> types::IncomingView {
    let user_id = types::text_or_empty(types::opt_text(cb.user_id));
    types::IncomingView {
        owner_user_id: None,
        id: "card_"@ + text::int_text(now as int),
        platform: PluginType::Dingtalk,
        chat_id: card_chat(cb),
        user: types::UserView { id: user_id, username: None, display_name: user_id, avatar_url: None },
        content: types::ContentView { content_type: MessageContentType::Action, text: action, attachments: None },
        timestamp: now,
        reply_to_message_id: None,
        action: callback::triggered(
            callback::parsed_callback(action),
            types::ContextView {
                platform: PluginType::Dingtalk,
                user_id,
                chat_id: card_chat(cb),
                message_id: None,
                session_id: None,
            },
        ),
    }
}

/// A pressed button: the tool call that it confirms, and the message.
#[derive(Debug)]
pub struct CardOutcome {
    pub confirm: Option<(String, String)>,
    pub message: UnifiedIncomingMessage,
}

/// What a pressed button with this callback leads to.
pub fn card_from_action(cb: &CardActionCallback, action: String, now: i64) -> (r: CardOutcome)
    ensures
        callback::opt_pair(r.confirm) == callback::confirmed_call(callback::parsed_callback(action@)),
        r.message@ == card_view(*cb, action@, now),
{
    let parsed = parse_dingtalk_callback(action.as_str());
    let confirm = confirmation(&parsed);
    let user_id = copy_or_empty(&cb.user_id);
    let chat_id = match copy_nonempty(&cb.open_conversation_id) {
        Some(id) => cat("group:", id.as_str()),
        None => cat("user:", user_id.as_str()),
    };
    let context = ActionContext {
        platform: PluginType::Dingtalk,
        user_id: user_id.clone(),
        chat_id: chat_id.clone(),
        message_id: None,
        session_id: None,
    };
    let message = UnifiedIncomingMessage {
        owner_user_id: None,
        id: cat("card_", i64_text(now).as_str()),
        platform: PluginType::Dingtalk,
        chat_id,
        user: UnifiedUser { id: user_id.clone(), username: None, display_name: user_id, avatar_url: None },
        content: UnifiedMessageContent { content_type: MessageContentType::Action, text: action, attachments: None },
        timestamp: now,
        reply_to_message_id: None,
        action: trigger_action(parsed, context),
    };
    CardOutcome { confirm, message }
}

/// The callback that the content of a pressed button holds.
pub open spec fn card_action(content: Option<Seq<char>>) -> Seq<char> {
    types::text_or_empty(
        json::node_str(json::opt_document(json::member_text(json::opt_document(content), "action"@))),
    )
}

fn read_action(content: &Option<String>) -> (r: String)
    ensures
        r@ == card_action(types::opt_text(*content)),
{
    match parse_opt(&find_member(&parse_opt(content), "action")) {
        Some(JsonNode::Text(s)) => s,
        _ => String::new(),
    }
}

/// What a pressed button leads to.
pub fn handle_card_action(cb: &CardActionCallback, now: i64) -> (r: CardOutcome)
    ensures
        callback::opt_pair(r.confirm) == callback::confirmed_call(
            callback::parsed_callback(card_action(types::opt_text(cb.content))),
        ),
        r.message@ == card_view(*cb, card_action(types::opt_text(cb.content)), now),
{
    card_from_action(cb, read_action(&cb.content), now)
}

// ---------------------------------------------------------------------------
// Cards
// ---------------------------------------------------------------------------

/// A button of a card, with its callback.
pub open spec fn button_json(b: ActionButton) -> json::JsonView {
    json::no_members().text("action"@, callback::callback_text(b.action@, callback::opt_pairs(b.params))).text(
        "label"@,
        b.label@,
    )
}

/// The list `l` with the buttons of a row behind it.
pub open spec fn with_row(l: json::JsonView, row: Seq<ActionButton>) -> json::JsonView
    decreases row.len(),
{
    if row.len() == 0 {
        l
    } else {
        with_row(l, row.drop_last()).and(button_json(row.last()))
    }
}

/// The list `l` with the buttons of rows behind it.
pub open spec fn with_rows(l: json::JsonView, rows: Seq<Vec<ActionButton>>) -> json::JsonView
    decreases rows.len(),
{
    if rows.len() == 0 {
        l
    } else {
        with_row(with_rows(l, rows.drop_last()), rows.last()@)
    }
}

/// The fields of a finished card: a content and, where there are any, buttons.
pub open spec fn final_fields(content: Seq<char>, buttons: Option<Vec<Vec<ActionButton>>>) -> json::JsonView {
    let actions = match buttons {
        Some(rows) => with_rows(json::no_items(), rows@),
        None => json::no_items(),
    };
    let head = if json::items_of(actions).len() == 0 {
        json::no_members()
    } else {
        json::no_members().with("actions"@, actions)
    };
    api::card_fields(head, "3"@, content)
}

fn button_value(b: &ActionButton) -> (r: Json)
    ensures
        r@ == button_json(*b),
{
    object().text("action", format_dingtalk_callback(b.action.as_str(), &b.params).as_str()).text(
        "label",
        b.label.as_str(),
    )
}

fn put_row(l: Json, row: &Vec<ActionButton>) -> (r: Json)
    requires
        l@ is List,
    ensures
        r@ == with_row(l@, row@),
        r@ is List,
{
    let ghost start = l@;
    let mut out = l;
    let mut i: usize = 0;
    assert(row@.take(0) =~= Seq::<ActionButton>::empty());
    while i < row.len()
        invariant
            i <= row.len(),
            out@ is List,
            out@ == with_row(start, row@.take(i as int)),
        decreases row.len() - i,
    {
        assert(row@.take(i + 1).drop_last() =~= row@.take(i as int));
        assert(row@.take(i + 1).last() == row@[i as int]);
        out = out.and(button_value(&row[i]));
        i += 1;
    }
    assert(row@.take(row@.len() as int) =~= row@);
    out
}

fn put_rows(rows: &Vec<Vec<ActionButton>>) -> (r: Json)
    ensures
        r@ == with_rows(json::no_items(), rows@),
        r@ is List,
{
    let mut out = list();
    let mut i: usize = 0;
    assert(rows@.take(0) =~= Seq::<Vec<ActionButton>>::empty());
    while i < rows.len()
        invariant
            i <= rows.len(),
            out@ is List,
            out@ == with_rows(json::no_items(), rows@.take(i as int)),
        decreases rows.len() - i,
    {
        assert(rows@.take(i + 1).drop_last() =~= rows@.take(i as int));
        assert(rows@.take(i + 1).last() == rows@[i as int]);
        out = put_row(out, &rows[i]);
        i += 1;
    }
    assert(rows@.take(rows@.len() as int) =~= rows@);
    out
}

/// The fields of a finished card.
pub fn build_final_card_param_map(content: &str, buttons: &Option<Vec<Vec<ActionButton>>>) -> (r: Json)
    ensures
        r@ == final_fields(content@, *buttons),
{
    let head = match buttons {
        Some(rows) => {
            let actions = put_rows(rows);
            let empty = actions.at(0).is_none();
            if empty {
                object()
            } else {
                object().with("actions", actions)
            }
        },
        None => object(),
    };
    put_card_fields(head, "3", content)
}

/// The fields of a card that content can be written to.
pub open spec fn open_fields() -> json::JsonView {
    api::card_fields(json::no_members(), "2"@, ""@)
}

/// The fields of a card that content can be written to.
pub fn open_card_fields() -> (r: Json)
    ensures
        r@ == open_fields(),
{
    put_card_fields(object(), "2", "")
}

// ---------------------------------------------------------------------------
// Ids
// ---------------------------------------------------------------------------

/// The id of a card, from the time in milliseconds and a running number.
pub open spec fn track_id(now: u64, seq: u64) -> Seq<char> {
    "aion_"@ + text::nat_text(now as nat) + "_"@ + text::nat_text(seq as nat)
}

/// The id of a card, from the time in milliseconds and a running number.
pub fn generate_out_track_id(now: u64, seq: u64) -> (r: String)
    ensures
        r@ == track_id(now, seq),
{
    cat4("aion_", u64_text(now).as_str(), "_", u64_text(seq).as_str())
}

/// The id of a write, from the time in milliseconds and a running number.
pub open spec fn guid_text(now: nat, seq: nat) -> Seq<char> {
    text::nat_text(now) + "_"@ + text::nat_text(seq)
}

/// The id of a write, from the time in milliseconds and a running number.
pub fn generate_guid(now: u64, seq: u64) -> (r: String)
    ensures
        r@ == guid_text(now as nat, seq as nat),
{
    cat3(u64_text(now).as_str(), "_", u64_text(seq).as_str())
}

proof fn lemma_numbers_read_back(now: nat, seq: nat)
    ensures
        text::split_once_at(text::nat_text(now) + "_"@ + text::nat_text(seq), '_') == Some(
            (text::nat_text(now), text::nat_text(seq)),
        ),
{
    let head = text::nat_text(now);
    let whole = head + "_"@ + text::nat_text(seq);
    text::law_decimal_is_read_back(now);
    reveal_strlit("_");
    assert forall|i: int| 0 <= i < head.len() implies whole[i] != '_' by {
        assert(text::is_digit(head[i]));
    }
    text::lemma_index_unique(whole, '_', head.len() as int);
    assert(whole.take(head.len() as int) =~= head);
    assert(whole.skip(head.len() as int + 1) =~= text::nat_text(seq));
}

/// No two cards share an id unless they share both the time and the number.
pub proof fn law_track_ids_are_unique(now1: u64, seq1: u64, now2: u64, seq2: u64)
    requires
        track_id(now1, seq1) == track_id(now2, seq2),
    ensures
        now1 == now2,
        seq1 == seq2,
{
    let a = text::nat_text(now1 as nat) + "_"@ + text::nat_text(seq1 as nat);
    let b = text::nat_text(now2 as nat) + "_"@ + text::nat_text(seq2 as nat);
    let n = "aion_"@.len() as int;
    assert(track_id(now1, seq1).skip(n) =~= a);
    assert(track_id(now2, seq2).skip(n) =~= b);
    lemma_numbers_read_back(now1 as nat, seq1 as nat);
    lemma_numbers_read_back(now2 as nat, seq2 as nat);
    text::law_decimal_is_read_back(now1 as nat);
    text::law_decimal_is_read_back(now2 as nat);
    text::law_decimal_is_read_back(seq1 as nat);
    text::law_decimal_is_read_back(seq2 as nat);
}

// ---------------------------------------------------------------------------
// The plugin
// ---------------------------------------------------------------------------

/// The DingTalk plugin.
#[derive(Debug)]
pub struct DingtalkPlugin {
    pub state: PluginState<DingtalkApi>,
}

/// What is missing for an initialization, if anything.
pub open spec fn missing(credentials: PluginCredentials) -> Option<Seq<char>> {
    if types::nonempty(types::opt_text(credentials.client_id)) is None {
        Some("Missing DingTalk client_id"@)
    } else if types::nonempty(types::opt_text(credentials.client_secret)) is None {
        Some("Missing DingTalk client_secret"@)
    } else {
        None
    }
}

/// What is to be sent next on the way of a message to its chat.
#[derive(Clone, Copy, Debug, PartialEq, Eq, Structural)]
pub enum SendStage {
    /// Create a card.
    Create,
    /// Deliver the card.
    Deliver,
    /// Open the card for content.
    Activate,
    /// Send a robot message instead.
    Fallback,
}

/// What follows a reply on the way of a message to its chat.
#[derive(Clone, Copy, Debug, PartialEq, Eq, Structural)]
pub enum SendNext {
    Stage(SendStage),
    /// The card stands for the message.
    CardSent,
    /// The robot message is the message.
    RobotSent,
    /// The message cannot be sent.
    GiveUp,
}

/// Where the way of a message begins: content is streamed to a card, a message
/// with buttons is sent at once.
pub open spec fn first_stage(message: UnifiedOutgoingMessage) -> SendStage {
    if message.buttons is None {
        SendStage::Create
    } else {
        SendStage::Fallback
    }
}

/// What follows a reply.
pub open spec fn next_stage(stage: SendStage, ok: bool) -> SendNext {
    match stage {
        SendStage::Create => if ok {
            SendNext::Stage(SendStage::Deliver)
        } else {
            SendNext::Stage(SendStage::Fallback)
        },
        SendStage::Deliver => if ok {
            SendNext::Stage(SendStage::Activate)
        } else {
            SendNext::Stage(SendStage::Fallback)
        },
        SendStage::Activate => if ok {
            SendNext::CardSent
        } else {
            SendNext::Stage(SendStage::Fallback)
        },
        SendStage::Fallback => if ok {
            SendNext::RobotSent
        } else {
            SendNext::GiveUp
        },
    }
}

/// What follows a reply.
pub fn after_reply(stage: SendStage, ok: bool) -> (r: SendNext)
    ensures
        r == next_stage(stage, ok),
{
    match stage {
        SendStage::Create => if ok {
            SendNext::Stage(SendStage::Deliver)
        } else {
            SendNext::Stage(SendStage::Fallback)
        },
        SendStage::Deliver => if ok {
            SendNext::Stage(SendStage::Activate)
        } else {
            SendNext::Stage(SendStage::Fallback)
        },
        SendStage::Activate => if ok {
            SendNext::CardSent
        } else {
            SendNext::Stage(SendStage::Fallback)
        },
        SendStage::Fallback => if ok {
            SendNext::RobotSent
        } else {
            SendNext::GiveUp
        },
    }
}

/// The request of a stage.
pub open spec fn stage_request(
    stage: SendStage,
    client_id: Seq<char>,
    token: Seq<char>,
    out_track_id: Seq<char>,
    chat_id: Seq<char>,
    content: Seq<char>,
) -> http::RequestView {
    match stage {
        SendStage::Create => api::authorized(
            Method::Post,
            api::DINGTALK_API_BASE@ + "/v1.0/card/instances"@,
            token,
            api::create_body(out_track_id),
        ),
        SendStage::Deliver => api::authorized(
            Method::Post,
            api::DINGTALK_API_BASE@ + "/v1.0/card/instances/deliver"@,
            token,
            api::deliver_body(out_track_id, chat_id, client_id),
        ),
        SendStage::Activate => api::authorized(
            Method::Put,
            api::DINGTALK_API_BASE@ + "/v1.0/card/instances"@,
            token,
            api::update_body(out_track_id, open_fields()),
        ),
        SendStage::Fallback => api::authorized(
            Method::Post,
            api::robot_url(chat_id),
            token,
            api::robot_body(chat_id, content, client_id),
        ),
    }
}

/// The content of a message that goes out, cut to the limit of the platform.
pub open spec fn outgoing_text(message: UnifiedOutgoingMessage, limit: nat) -> Seq<char> {
    text::cut_to_limit(types::text_or_empty(types::opt_text(message.text)), limit)
}

/// What is known of a robot from its identity.
pub open spec fn robot_view(robot: RobotInfoResponse) -> types::BotInfoView {
    types::BotInfoView {
        id: types::text_or_empty(types::opt_text(robot.robot_user_id)),
        username: None,
        display_name: types::text_or_empty(types::opt_text(robot.nick)),
    }
}

/// The request that writes the content of a message to its card.
pub open spec fn edit_request(
    token: Seq<char>,
    message_id: Seq<char>,
    message: UnifiedOutgoingMessage,
    guid: Seq<char>,
    limit: nat,
) -> http::RequestView {
    api::write_request(token, message_id, outgoing_text(message, limit), message.buttons is Some, guid)
}

/// The request that finishes the card of a message; only a message with buttons finishes
/// its card.
pub open spec fn finish_request(
    token: Seq<char>,
    message_id: Seq<char>,
    message: UnifiedOutgoingMessage,
    limit: nat,
) -> Option<http::RequestView> {
    if message.buttons is Some {
        Some(api::update_request(token, message_id, final_fields(outgoing_text(message, limit), message.buttons)))
    } else {
        None
    }
}

impl DingtalkPlugin {
    /// A plugin to which nothing has happened.
    pub fn new() -> (r: Self)
        ensures
            r.state@ == lifecycle::created::<DingtalkApi>(PluginType::Dingtalk),
    {
        DingtalkPlugin { state: PluginState::new(PluginType::Dingtalk) }
    }

    fn lacks(&mut self, what: &str) -> (r: ChannelError)
        ensures
            final(self).state@ == lifecycle::failed(old(self).state@, what@),
            r@ == error::ErrorView::InvalidConfig(what@),
    {
        self.state.fail(what.to_owned());
        ChannelError::InvalidConfig(what.to_owned())
    }

    /// Begins an initialization; it needs the id and the secret of a client.
    pub fn initialize(&mut self, credentials: &PluginCredentials) -> (r: Result<DingtalkApi, ChannelError>)
        ensures
            match missing(*credentials) {
                None => {
                    &&& r matches Ok(a) && Some(a.client_id@) == types::opt_text(credentials.client_id) && Some(
                        a.client_secret@,
                    ) == types::opt_text(credentials.client_secret)
                    &&& final(self).state@ == (lifecycle::StateView {
                        status: PluginStatus::Initializing,
                        ..old(self).state@
                    })
                },
                Some(what) => {
                    &&& r matches Err(e) && e@ == error::ErrorView::InvalidConfig(what)
                    &&& final(self).state@ == lifecycle::failed(old(self).state@, what)
                },
            },
    {
        self.state.begin();
        match copy_nonempty(&credentials.client_id) {
            Some(client_id) => match copy_nonempty(&credentials.client_secret) {
                Some(client_secret) => Ok(DingtalkApi::new(client_id.as_str(), client_secret.as_str())),
                None => Err(self.lacks("Missing DingTalk client_secret")),
            },
            None => Err(self.lacks("Missing DingTalk client_id")),
        }
    }

    /// Ends an initialization with the identity of the robot.
    pub fn identified(&mut self, api: DingtalkApi, robot: RobotInfoResponse)
        ensures
            final(self).state@ == lifecycle::made_ready(old(self).state@, robot_view(robot), api),
    {
        self.state.ready(
            BotInfo {
                id: copy_or_empty(&robot.robot_user_id),
                username: None,
                display_name: copy_or_empty(&robot.nick),
            },
            api,
        );
    }

    /// Starts the plugin; its connection runs since the initialization.
    pub fn start(&mut self)
        ensures
            final(self).state@ == (lifecycle::StateView { status: PluginStatus::Running, ..old(self).state@ }),
    {
        self.state.status = PluginStatus::Running;
    }

    /// Where the way of a message begins.
    pub fn send_message(&self, message: &UnifiedOutgoingMessage) -> (r: Result<SendStage, ChannelError>)
        ensures
            match self.state.api {
                Some(_) => r matches Ok(stage) && stage == first_stage(*message),
                None => r matches Err(e) && e@ == error::ErrorView::PlatformApi("Plugin not initialized"@),
            },
    {
        match self.state.require_api() {
            Ok(_) => if message.buttons.is_none() {
                Ok(SendStage::Create)
            } else {
                Ok(SendStage::Fallback)
            },
            Err(e) => Err(e),
        }
    }

    /// The request of a stage on the way of a message, with the token to use.
    pub fn send_request(
        &self,
        stage: SendStage,
        token: &str,
        out_track_id: &str,
        chat_id: &str,
        message: &UnifiedOutgoingMessage,
        limit: usize,
    ) -> (r: Result<HttpRequest, ChannelError>)
        ensures
            match self.state.api {
                Some(a) => r matches Ok(q) && q@ == stage_request(
                    stage,
                    a.client_id@,
                    token@,
                    out_track_id@,
                    chat_id@,
                    outgoing_text(*message, limit as nat),
                ),
                None => r matches Err(e) && e@ == error::ErrorView::PlatformApi("Plugin not initialized"@),
            },
    {
        match self.state.require_api() {
            Ok(a) => match stage {
                SendStage::Create => Ok(a.create_card_instance(token, out_track_id)),
                SendStage::Deliver => Ok(a.deliver_card(token, out_track_id, chat_id)),
                SendStage::Activate => Ok(a.update_card(token, out_track_id, open_card_fields())),
                SendStage::Fallback => {
                    let cut = truncate_message(copy_or_empty(&message.text).as_str(), limit);
                    Ok(a.send_robot_message(token, chat_id, cut.as_str()))
                },
            },
            Err(e) => Err(e),
        }
    }

    /// The request that writes the content of a message to its card; buttons end
    /// the card.
    pub fn edit_message(
        &self,
        token: &str,
        message_id: &str,
        message: &UnifiedOutgoingMessage,
        guid: &str,
        limit: usize,
    ) -> (r: Result<HttpRequest, ChannelError>)
        ensures
            match self.state.api {
                Some(_) => r matches Ok(q) && q@ == edit_request(token@, message_id@, *message, guid@, limit as nat),
                None => r matches Err(e) && e@ == error::ErrorView::PlatformApi("Plugin not initialized"@),
            },
    {
        match self.state.require_api() {
            Ok(a) => {
                let cut = truncate_message(copy_or_empty(&message.text).as_str(), limit);
                Ok(a.streaming_write(token, message_id, cut.as_str(), message.buttons.is_some(), guid))
            },
            Err(e) => Err(e),
        }
    }

    /// The request that finishes the card of a message, once its content is
    /// written; only a message with buttons finishes its card.
    pub fn finish_message(&self, token: &str, message_id: &str, message: &UnifiedOutgoingMessage, limit: usize) -> (r:
        Result<Option<HttpRequest>, ChannelError>)
        ensures
            match self.state.api {
                Some(_) => match r {
                    Ok(Some(q)) => finish_request(token@, message_id@, *message, limit as nat) == Some(q@),
                    Ok(None) => finish_request(token@, message_id@, *message, limit as nat) is None,
                    Err(_) => false,
                },
                None => r matches Err(e) && e@ == error::ErrorView::PlatformApi("Plugin not initialized"@),
            },
    {
        match self.state.require_api() {
            Ok(a) => if message.buttons.is_some() {
                let cut = truncate_message(copy_or_empty(&message.text).as_str(), limit);
                let fields = build_final_card_param_map(cut.as_str(), &message.buttons);
                Ok(Some(a.update_card(token, message_id, fields)))
            } else {
                Ok(None)
            },
            Err(e) => Err(e),
        }
    }
}

/// Whatever goes wrong with a card, the message still goes out.
pub proof fn law_card_failures_fall_back(stage: SendStage)
    requires
        stage != SendStage::Fallback,
    ensures
        next_stage(stage, false) == SendNext::Stage(SendStage::Fallback),
{
}

/// A message with buttons is never streamed to a card.
pub proof fn law_buttons_go_out_at_once(message: UnifiedOutgoingMessage)
    requires
        message.buttons is Some,
    ensures
        first_stage(message) == SendStage::Fallback,
{
}

/// How many buttons there are in rows.
pub open spec fn button_count(rows: Seq<Vec<ActionButton>>) -> nat
    decreases rows.len(),
{
    if rows.len() == 0 {
        0
    } else {
        button_count(rows.drop_last()) + rows.last()@.len()
    }
}

proof fn lemma_row_items(l: json::JsonView, row: Seq<ActionButton>, k: int)
    requires
        l is List,
    ensures
        with_row(l, row) is List,
        json::items_of(with_row(l, row)).len() == json::items_of(l).len() + row.len(),
        0 <= k < json::items_of(l).len() + row.len() ==> json::items_of(with_row(l, row))[k] == (if k < json::items_of(
            l,
        ).len() {
            json::items_of(l)[k]
        } else {
            button_json(row[k - json::items_of(l).len()])
        }),
    decreases row.len(),
{
    if row.len() > 0 {
        lemma_row_items(l, row.drop_last(), k);
    }
}

/// A card shows as many buttons as there are in all rows.
pub proof fn law_every_button_is_shown(rows: Seq<Vec<ActionButton>>)
    ensures
        with_rows(json::no_items(), rows) is List,
        json::items_of(with_rows(json::no_items(), rows)).len() == button_count(rows),
    decreases rows.len(),
{
    if rows.len() > 0 {
        law_every_button_is_shown(rows.drop_last());
        lemma_row_items(with_rows(json::no_items(), rows.drop_last()), rows.last()@, 0);
    }
}

proof fn lemma_rows_items(rows: Seq<Vec<ActionButton>>, i: int, j: int)
    requires
        0 <= i < rows.len(),
        0 <= j < rows[i]@.len(),
    ensures
        button_count(rows.take(i)) + j < button_count(rows),
        json::items_of(with_rows(json::no_items(), rows))[button_count(rows.take(i)) + j] == button_json(rows[i]@[j]),
    decreases rows.len(),
{
    let before = rows.drop_last();
    let l = with_rows(json::no_items(), before);
    law_every_button_is_shown(before);
    law_every_button_is_shown(rows);
    if i < rows.len() - 1 {
        lemma_rows_items(before, i, j);
        assert(before.take(i) =~= rows.take(i));
    } else {
        assert(rows.take(i) =~= before);
    }
    lemma_row_items(l, rows.last()@, button_count(rows.take(i)) + j);
}

/// Each button of a message is shown on its finished card, row after row, under its
/// own label, and pressing it leads to its own action with its own parameters.
pub proof fn law_shown_button_is_the_button(content: Seq<char>, buttons: Option<Vec<Vec<ActionButton>>>, i: int, j: int)
    requires
        buttons is Some,
        0 <= i < buttons->0@.len(),
        0 <= j < buttons->0@[i]@.len(),
    ensures
        ({
            let b = buttons->0@[i]@[j];
            let actions = json::field(final_fields(content, buttons), "actions"@);
            let shown = json::items_of(actions->0)[button_count(buttons->0@.take(i)) + j];
            let sent = json::field(shown, "action"@);
            &&& actions is Some
            &&& json::field(shown, "label"@) == Some(json::JsonView::Text(b.label@))
            &&& sent is Some && sent->0 is Text
            &&& callback::can_be_read_back(b) ==> callback::leads_to(sent->0->Text_0, b)
        }),
{
    broadcast use json::group_fields;

    let rows = buttons->0@;
    let b = rows[i]@[j];
    reveal_strlit("action");
    reveal_strlit("label");
    reveal_strlit("actions");
    reveal_strlit("flowStatus");
    reveal_strlit("msgContent");
    reveal_strlit("staticMsgContent");
    reveal_strlit("sys_full_json_obj");
    assert("action"@.len() == 6 && "label"@.len() == 5 && "actions"@.len() == 7 && "flowStatus"@.len() == 10
        && "msgContent"@.len() == 10 && "staticMsgContent"@.len() == 16 && "sys_full_json_obj"@.len() == 17
        && "flowStatus"@[0] == 'f' && "msgContent"@[0] == 'm');
    lemma_rows_items(rows, i, j);
    law_every_button_is_shown(rows);
    if callback::can_be_read_back(b) {
        callback::law_button_leads_to_its_action(b);
    }
}

/// A finished card shows the content under the status of a finished card, and
/// buttons exactly if there are any; a card that is opened is empty, under the status
/// of one that is written to.
pub proof fn law_card_shows_the_text(content: Seq<char>, buttons: Option<Vec<Vec<ActionButton>>>)
    ensures
        json::field(final_fields(content, buttons), "msgContent"@) == Some(json::JsonView::Text(content)),
        json::field(final_fields(content, buttons), "flowStatus"@) == Some(json::JsonView::Text("3"@)),
        json::field(final_fields(content, buttons), "actions"@) is Some <==> (buttons is Some && button_count(
            buttons->0@,
        ) > 0),
        json::field(open_fields(), "msgContent"@) == Some(json::JsonView::Text(""@)),
        json::field(open_fields(), "flowStatus"@) == Some(json::JsonView::Text("2"@)),
{
    broadcast use json::group_fields;

    reveal_strlit("actions");
    reveal_strlit("flowStatus");
    reveal_strlit("msgContent");
    reveal_strlit("staticMsgContent");
    reveal_strlit("sys_full_json_obj");
    assert("actions"@.len() == 7 && "flowStatus"@.len() == 10 && "msgContent"@.len() == 10
        && "staticMsgContent"@.len() == 16 && "sys_full_json_obj"@.len() == 17 && "flowStatus"@[0] == 'f'
        && "msgContent"@[0] == 'm');
    if let Some(rows) = buttons {
        law_every_button_is_shown(rows@);
    }
}

/// A message without buttons goes out as a card: it is created, delivered and opened,
/// in this order, and then stands for the message. One with buttons, and one whose
/// card fails at any point, goes out as a robot message; if that fails, not at all.
pub proof fn law_message_goes_out_as_a_card(message: UnifiedOutgoingMessage)
    ensures
        first_stage(message) == SendStage::Create <==> message.buttons is None,
        next_stage(SendStage::Create, true) == SendNext::Stage(SendStage::Deliver),
        next_stage(SendStage::Deliver, true) == SendNext::Stage(SendStage::Activate),
        next_stage(SendStage::Activate, true) == SendNext::CardSent,
        next_stage(SendStage::Fallback, true) == SendNext::RobotSent,
        next_stage(SendStage::Fallback, false) == SendNext::GiveUp,
        next_stage(SendStage::Create, false) == SendNext::Stage(SendStage::Fallback),
        next_stage(SendStage::Deliver, false) == SendNext::Stage(SendStage::Fallback),
        next_stage(SendStage::Activate, false) == SendNext::Stage(SendStage::Fallback),
{
}

/// Each stage of a message asks for what it is about, of the card of that id and in
/// that chat.
pub proof fn law_stages_ask_for_what_they_are(
    client_id: Seq<char>,
    token: Seq<char>,
    out_track_id: Seq<char>,
    chat_id: Seq<char>,
    content: Seq<char>,
)
    ensures
        ({
            let ask = |stage: SendStage| stage_request(stage, client_id, token, out_track_id, chat_id, content);
            &&& ask(SendStage::Create).url == "https://api.dingtalk.com/v1.0/card/instances"@
            &&& ask(SendStage::Create).method == Method::Post
            &&& ask(SendStage::Create).body == Some(api::create_body(out_track_id))
            &&& ask(SendStage::Deliver).url == "https://api.dingtalk.com/v1.0/card/instances/deliver"@
            &&& ask(SendStage::Deliver).method == Method::Post
            &&& ask(SendStage::Deliver).body == Some(api::deliver_body(out_track_id, chat_id, client_id))
            &&& ask(SendStage::Activate).url == "https://api.dingtalk.com/v1.0/card/instances"@
            &&& ask(SendStage::Activate).method == Method::Put
            &&& ask(SendStage::Activate).body == Some(api::update_body(out_track_id, open_fields()))
            &&& ask(SendStage::Fallback).url == api::robot_url(chat_id)
            &&& ask(SendStage::Fallback).method == Method::Post
            &&& ask(SendStage::Fallback).body == Some(api::robot_body(chat_id, content, client_id))
            &&& forall|stage: SendStage|
                (#[trigger] stage_request(stage, client_id, token, out_track_id, chat_id, content)).headers == seq![
                    ("x-acs-dingtalk-access-token"@, token),
                ]
        }),
{
    reveal_strlit("https://api.dingtalk.com");
    reveal_strlit("/v1.0/card/instances");
    reveal_strlit("/v1.0/card/instances/deliver");
    reveal_strlit("https://api.dingtalk.com/v1.0/card/instances");
    reveal_strlit("https://api.dingtalk.com/v1.0/card/instances/deliver");
    assert(api::DINGTALK_API_BASE@ + "/v1.0/card/instances"@ =~= "https://api.dingtalk.com/v1.0/card/instances"@);
    assert(api::DINGTALK_API_BASE@ + "/v1.0/card/instances/deliver"@
        =~= "https://api.dingtalk.com/v1.0/card/instances/deliver"@);
    api::law_requests_carry_the_token(Method::Post, content, token, api::create_body(out_track_id));
}

/// A message is from whoever sent it, by the id in the company where there is one, and
/// an answer to its chat goes to the group that it came from, or else to the sender.
pub proof fn law_message_keeps_its_origin(cb: BotMessageCallback, now: i64)
    ensures
        ({
            let m = message_view(cb, now);
            let group = cb.conversation_type matches Some(t) && t@ == "2"@;
            &&& m.platform == PluginType::Dingtalk
            &&& cb.sender_staff_id is Some ==> m.user.id == cb.sender_staff_id->0@
            &&& cb.sender_staff_id is None && cb.sender_id is Some ==> m.user.id == cb.sender_id->0@
            &&& cb.msg_id is Some ==> m.id == cb.msg_id->0@
            &&& cb.sender_nick is Some ==> m.user.display_name == cb.sender_nick->0@
            &&& group && cb.conversation_id is Some ==> wire::chat_of(m.chat_id) == (true, cb.conversation_id->0@)
            &&& !group ==> wire::chat_of(m.chat_id) == (false, m.user.id)
            &&& m.action is None
            &&& cb.create_at is None ==> m.timestamp == now
        }),
{
    wire::law_chat_id_is_read_back(
        types::opt_text(cb.conversation_type),
        types::opt_text(cb.conversation_id),
        sender_of(cb),
    );
}

/// A text comes through as it is, as a command exactly if it begins with a slash;
/// anything else comes through as what kind of thing it is.
pub proof fn law_content_is_what_was_sent(s: Seq<char>, msgtype: Seq<char>, cb: BotMessageCallback)
    requires
        cb.text matches Some(t) && t.content matches Some(c) && c@ == s,
    ensures
        content_of("text"@, cb).1 == s,
        content_of("text"@, cb).0 == MessageContentType::Command <==> s.len() > 0 && s[0] == '/',
        content_of("text"@, cb).0 == MessageContentType::Command || content_of("text"@, cb).0
            == MessageContentType::Text,
        content_of(msgtype, cb).0 == MessageContentType::Photo <==> msgtype == "picture"@,
        content_of(msgtype, cb).0 == MessageContentType::Document <==> msgtype == "file"@,
        content_of(msgtype, cb).0 == MessageContentType::Audio <==> msgtype == "audio"@,
        content_of(msgtype, cb).0 == MessageContentType::Video <==> msgtype == "video"@,
        msgtype == "picture"@ ==> content_of(msgtype, cb).1 == "[Picture]"@,
        msgtype == "file"@ ==> content_of(msgtype, cb).1 == "[File]"@,
        msgtype == "audio"@ ==> content_of(msgtype, cb).1 == "[Audio]"@,
        msgtype == "video"@ ==> content_of(msgtype, cb).1 == "[Video]"@,
        content_of(msgtype, cb).0 == MessageContentType::Text && msgtype != "text"@ ==> content_of(msgtype, cb).1
            == "[Unsupported message type: "@ + msgtype + "]"@,
{
    reveal_strlit("/");
    reveal_strlit("text");
    reveal_strlit("picture");
    reveal_strlit("file");
    reveal_strlit("audio");
    reveal_strlit("video");
    assert("text"@.len() == 4 && "picture"@.len() == 7 && "file"@.len() == 4 && "audio"@.len() == 5
        && "video"@.len() == 5 && "text"@[0] == 't' && "file"@[0] == 'f' && "audio"@[0] == 'a'
        && "video"@[0] == 'v');
    assert("/"@ =~= seq!['/']);
    if s.len() > 0 {
        assert(s.subrange(0, 1)[0] == s[0]);
        assert(s[0] == '/' ==> s.subrange(0, 1) =~= "/"@);
    }
}

/// A pressed button is a message of whoever pressed it, in the chat where it was
/// pressed, and its action knows both.
pub proof fn law_pressed_button_keeps_its_origin(cb: CardActionCallback, b: ActionButton, now: i64)
    requires
        callback::can_be_read_back(b),
        cb.user_id is Some,
    ensures
        ({
            let m = card_view(cb, callback::callback_text(b.action@, callback::opt_pairs(b.params)), now);
            let in_group = cb.open_conversation_id is Some && cb.open_conversation_id->0@.len() > 0;
            &&& m.user.id == cb.user_id->0@
            &&& in_group ==> wire::chat_of(m.chat_id) == (true, cb.open_conversation_id->0@)
            &&& !in_group ==> wire::chat_of(m.chat_id) == (false, cb.user_id->0@)
            &&& m.action matches Some(a) && {
                &&& a.action == b.action@
                &&& a.params == callback::own_params(b)
                &&& a.context.user_id == m.user.id
                &&& a.context.chat_id == m.chat_id
                &&& a.context.platform == PluginType::Dingtalk
            }
        }),
{
    callback::law_button_leads_to_its_action(b);
    let context = types::ContextView {
        platform: PluginType::Dingtalk,
        user_id: cb.user_id->0@,
        chat_id: card_chat(cb),
        message_id: None,
        session_id: None,
    };
    let t = callback::callback_text(b.action@, callback::opt_pairs(b.params));
    assert(callback::triggered(callback::parsed_callback(t), context) is Some);
    wire::lemma_prefixed_chat(cb.user_id->0@);
    if let Some(g) = cb.open_conversation_id {
        wire::lemma_prefixed_chat(g@);
    }
}

/// Credentials are enough exactly if both the id and the secret of a client are
/// there and not empty.
pub proof fn law_both_credentials_are_needed(credentials: PluginCredentials)
    ensures
        missing(credentials) is None <==> {
            &&& credentials.client_id matches Some(id) && id@.len() > 0
            &&& credentials.client_secret matches Some(secret) && secret@.len() > 0
        },
        credentials.client_id is None ==> missing(credentials) == Some("Missing DingTalk client_id"@),
        (credentials.client_id matches Some(x) && x@.len() > 0) && credentials.client_secret is None ==> missing(credentials) == Some(
            "Missing DingTalk client_secret"@,
        ),
{
}

/// A callback is about what its topic says, with its data; nothing else is about anything.
pub proof fn law_callbacks_are_about_their_topic(f: StreamFrame)
    ensures
        ({
            let data = match f.data {
                Some(d) => d@,
                None => Seq::empty(),
            };
            let topic = types::opt_text(f.headers.topic);
            &&& work_of(f) == WorkView::BotMessage(data) <==> f.frame_type@ == "CALLBACK"@ && topic == Some(
                "/v1.0/im/bot/messages/get"@,
            )
            &&& work_of(f) == WorkView::CardAction(data) <==> f.frame_type@ == "CALLBACK"@ && topic == Some(
                "/v1.0/card/instances/callback"@,
            )
        }),
{
    lemma_frame_types_differ();
}

/// A ping is answered with its own data under its own id, an event with a success, and
/// nothing else of the system is answered.
pub proof fn law_pings_and_events_are_answered(f: StreamFrame)
    requires
        f.headers.message_id is Some,
    ensures
        ({
            let id = f.headers.message_id->0@;
            let ping = f.headers.topic matches Some(t) && t@ == "ping"@;
            let a = answer(f);
            &&& f.frame_type@ == "SYSTEM"@ && ping && f.data is Some ==> (a matches Some(x) && x.message_id == id
                && x.data == f.data->0@ && x.code == 200)
            &&& f.frame_type@ == "SYSTEM"@ && !ping ==> a is None
            &&& f.frame_type@ == "EVENT"@ ==> (a matches Some(x) && x.message_id == id && x.data
                == "{\"response\":\"SUCCESS\"}"@ && x.code == 200)
            &&& f.frame_type@ == "CALLBACK"@ ==> (a matches Some(x) && x.message_id == id && x.code == 200)
        }),
{
    lemma_frame_types_differ();
}

/// A connection that breaks fails, one that is closed or no longer wanted ends quietly, a
/// ping of the connection is answered, and a frame is handled.
pub proof fn law_connection_ends_as_it_should(event: StreamEvent)
    ensures
        step_of(event) is Finish <==> event is Close || event is Shutdown,
        step_of(event) is Fail <==> event is ReadError || event is Ended,
        step_of(event) is Pong <==> event is Ping,
        step_of(event) is Handle <==> event is Frame,
        event matches StreamEvent::Frame(f) ==> (step_of(event) matches StepView::Handle(work, _) && work == work_of(f)),
{
}

/// What goes out is the text of the message, as far as the platform allows.
pub proof fn law_outgoing_text_is_the_text(message: UnifiedOutgoingMessage, limit: nat)
    requires
        message.text is Some,
        limit >= 3,
    ensures
        message.text->0@.len() <= limit ==> outgoing_text(message, limit) == message.text->0@,
        outgoing_text(message, limit).len() <= limit,
{
    text::law_cut_fits(message.text->0@, limit);
}

/// An edit writes the text of the message to its own card; buttons end the card and are
/// put on it, and without buttons it stays open.
pub proof fn law_edit_is_of_the_card(
    token: Seq<char>,
    message_id: Seq<char>,
    message: UnifiedOutgoingMessage,
    guid: Seq<char>,
    limit: nat,
)
    requires
        message.text matches Some(t) && t@.len() <= limit,
    ensures
        edit_request(token, message_id, message, guid, limit).body == Some(
            api::streaming_body(message_id, message.text->0@, message.buttons is Some, guid),
        ),
        finish_request(token, message_id, message, limit) is Some <==> message.buttons is Some,
        finish_request(token, message_id, message, limit) matches Some(q) ==> q.body == Some(
            api::update_body(message_id, final_fields(message.text->0@, message.buttons)),
        ),
        edit_request(token, message_id, message, guid, limit).headers == seq![("x-acs-dingtalk-access-token"@, token)],
        edit_request(token, message_id, message, guid, limit).url == "https://api.dingtalk.com/v1.0/card/streaming"@,
        finish_request(token, message_id, message, limit) matches Some(q) ==> q.headers == seq![
            ("x-acs-dingtalk-access-token"@, token),
        ],
        finish_request(token, message_id, message, limit) matches Some(q) ==> q.url
            == "https://api.dingtalk.com/v1.0/card/instances"@,
{
    api::law_requests_go_to_their_address(
        message_id,
        message_id,
        token,
        message_id,
        message_id,
        message.text->0@,
        message.buttons is Some,
        guid,
        final_fields(message.text->0@, message.buttons),
    );
}

/// A robot is shown under its own name, and known by its own id.
pub proof fn law_robot_has_its_name(robot: RobotInfoResponse)
    ensures
        robot.nick is Some ==> robot_view(robot).display_name == robot.nick->0@,
        robot.robot_user_id is Some ==> robot_view(robot).id == robot.robot_user_id->0@,
        robot_view(robot).username is None,
{
}

/// Writes at different times, or with different running numbers, have different ids.
pub proof fn law_writes_have_their_own_id(now: nat, seq: nat, later: nat, next: nat)
    requires
        guid_text(now, seq) == guid_text(later, next),
    ensures
        now == later,
        seq == next,
{
    reveal_strlit("_");
    let a = guid_text(now, seq);
    let x = text::nat_text(now);
    let y = text::nat_text(later);
    text::law_decimal_is_read_back(now);
    text::law_decimal_is_read_back(later);
    text::law_decimal_is_read_back(seq);
    text::law_decimal_is_read_back(next);
    assert forall|i: int| 0 <= i < x.len() implies a[i] != '_' by {
        assert(text::is_digit(x[i]));
        assert(a[i] == x[i]);
    }
    assert forall|i: int| 0 <= i < y.len() implies a[i] != '_' by {
        assert(text::is_digit(y[i]));
        assert(guid_text(later, next)[i] == y[i]);
    }
    assert(a[x.len() as int] == '_');
    assert(guid_text(later, next)[y.len() as int] == '_');
    text::lemma_index_unique(a, '_', x.len() as int);
    text::lemma_index_unique(a, '_', y.len() as int);
    assert(x =~= a.take(x.len() as int));
    assert(y =~= a.take(x.len() as int)) by {
        assert(y =~= guid_text(later, next).take(y.len() as int));
    }
    assert(text::nat_text(seq) =~= a.skip(x.len() as int + 1));
    assert(text::nat_text(next) =~= guid_text(later, next).skip(y.len() as int + 1));
}

/// An answer is to the frame that it names, and says that all went well.
pub proof fn law_answer_reports_success(message_id: Seq<char>)
    ensures
        success_ack(message_id).message_id == message_id,
        success_ack(message_id).code == 200,
        success_ack(message_id).data == "{\"response\":\"SUCCESS\"}"@,
{
}

/// A pressed button says what to do by the action in its content.
pub proof fn law_content_names_its_action(content: Seq<char>, action: Seq<char>)
    requires
        json::json_member(content, "action"@) == Some(json::NodeView::Text(action)),
    ensures
        card_action(Some(content)) == action,
        card_action(None).len() == 0,
{
}

/// A connection has come up once anything arrives on it but its end.
pub proof fn law_arrivals_show_the_connection(event: StreamEvent)
    ensures
        shows_connection(event) <==> event is Frame || event is Unreadable || event is Ping || event is OtherMessage,
{
}

} // verus!
