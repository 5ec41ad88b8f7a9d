//! Frames, callbacks and chat ids of DingTalk.
use vstd::prelude::*;
use vstd::string::*;

use crate::json;
use crate::json::{object, write_json, Json};
use crate::plugins::callback;
use crate::plugins::callback::{format_callback, parse_callback, ParsedCallback};
use crate::text;
use crate::text::{cat, chars_of, str_eq, starts_with, string_of};
use crate::types;
use crate::types::Params;

verus! {

// ---------------------------------------------------------------------------
// Frames
// ---------------------------------------------------------------------------

/// A frame of the stream.
#[derive(Debug)]
pub struct StreamFrame {
    pub frame_type: String,
    pub headers: StreamHeaders,
    pub data: Option<String>,
}

/// The headers of a frame.
#[derive(Debug)]
pub struct StreamHeaders {
    pub content_type: Option<String>,
    pub message_id: Option<String>,
    pub topic: Option<String>,
}

/// The answer to a frame.
#[derive(Debug)]
pub struct StreamAck {
    pub code: i64,
    pub headers: AckHeaders,
    pub message: String,
    pub data: String,
}

/// The headers of an answer.
#[derive(Debug)]
pub struct AckHeaders {
    pub content_type: String,
    pub message_id: String,
}

/// What an answer holds.
pub struct AckView {
    pub code: i64,
    pub content_type: Seq<char>,
    pub message_id: Seq<char>,
    pub message: Seq<char>,
    pub data: Seq<char>,
}

impl View for StreamAck {
    type V = AckView;

    open spec fn view(&self) -> AckView {
        AckView {
            code: self.code,
            content_type: self.headers.content_type@,
            message_id: self.headers.message_id@,
            message: self.message@,
            data: self.data@,
        }
    }
}

/// An answer as a document.
pub open spec fn ack_json(a: AckView) -> json::JsonView {
    json::no_members().with("code"@, json::JsonView::Int(a.code as int)).with(
        "headers"@,
        json::no_members().text("contentType"@, a.content_type).text("messageId"@, a.message_id),
    ).text("message"@, a.message).text("data"@, a.data)
}

impl StreamAck {
    /// This answer as a document.
    pub fn to_json(&self) -> (r: Json)
        ensures
            r@ == ack_json(self@),
    {
        let headers = object().text("contentType", self.headers.content_type.as_str()).text(
            "messageId",
            self.headers.message_id.as_str(),
        );
        let code = Json::Int(self.code);
        assert(code@ == json::JsonView::Int(self.code as int));
        object().with("code", code).with("headers", headers).text("message", self.message.as_str()).text(
            "data",
            self.data.as_str(),
        )
    }

    /// The text of this answer.
    pub fn to_text(&self) -> (r: String)
        ensures
            r@ == json::json_text(ack_json(self@)),
    {
        write_json(&self.to_json())
    }
}

// ---------------------------------------------------------------------------
// Callbacks of the platform
// ---------------------------------------------------------------------------

/// A message to the bot.
#[derive(Debug)]
pub struct BotMessageCallback {
    pub conversation_id: Option<String>,
    pub msg_id: Option<String>,
    pub msgtype: Option<String>,
    pub text: Option<TextPayload>,
    pub sender_id: Option<String>,
    pub sender_nick: Option<String>,
    pub sender_staff_id: Option<String>,
    pub session_webhook: Option<String>,
    pub session_webhook_expired_time: Option<i64>,
    pub conversation_type: Option<String>,
    pub is_in_at_list: Option<bool>,
    pub at_users: Option<Vec<AtUser>>,
    pub create_at: Option<i64>,
    pub robot_code: Option<String>,
}

/// The text of a message.
#[derive(Debug)]
pub struct TextPayload {
    pub content: Option<String>,
}

/// Somebody whom a message addresses.
#[derive(Debug)]
pub struct AtUser {
    pub dingtalk_id: Option<String>,
    pub staff_id: Option<String>,
}

/// A button of a card that was pressed; `content` is the text of a document.
#[derive(Debug)]
pub struct CardActionCallback {
    pub user_id: Option<String>,
    pub open_conversation_id: Option<String>,
    pub content: Option<String>,
}

// ---------------------------------------------------------------------------
// Callbacks of buttons
// ---------------------------------------------------------------------------

/// The callback of an action with parameters.
pub fn format_dingtalk_callback(action: &str, params: &Option<Params>) -> (r: String)
    ensures
        r@ == callback::callback_text(action@, callback::opt_pairs(*params)),
{
    format_callback(action, params)
}

/// What a callback says.
pub fn parse_dingtalk_callback(data: &str) -> (r: Option<ParsedCallback>)
    ensures
        callback::opt_parsed(r) == callback::parsed_callback(data@),
{
    parse_callback(data)
}

// ---------------------------------------------------------------------------
// Chat ids
// ---------------------------------------------------------------------------

/// The id of a chat: a group by its conversation, anything else by the user.
pub open spec fn chat_id_of(
    conversation_type: Option<Seq<char>>,
    conversation_id: Option<Seq<char>>,
    sender_staff_id: Seq<char>,
) -> Seq<char> {
    if conversation_type == Some("2"@) {
        "group:"@ + types::text_or_empty(conversation_id)
    } else {
        "user:"@ + sender_staff_id
    }
}

/// The id of a chat.
pub fn encode_chat_id(
    conversation_type: Option<&str>,
    conversation_id: Option<&str>,
    sender_staff_id: &str,
) -> (r: String)
    ensures
        r@ == chat_id_of(types::opt_str(conversation_type), types::opt_str(conversation_id), sender_staff_id@),
{
    let group = match conversation_type {
        Some(t) => str_eq(t, "2"),
        None => false,
    };
    if group {
        match conversation_id {
            Some(id) => cat("group:", id),
            None => {
                assert("group:"@ + Seq::<char>::empty() =~= "group:"@);
                "group:".to_owned()
            },
        }
    } else {
        cat("user:", sender_staff_id)
    }
}

/// Whether a chat is a group, and its id on the platform; an id without a
/// prefix is that of a user.
pub open spec fn chat_of(chat_id: Seq<char>) -> (bool, Seq<char>) {
    if text::begins_with(chat_id, "group:"@) {
        (true, chat_id.skip("group:"@.len() as int))
    } else if text::begins_with(chat_id, "user:"@) {
        (false, chat_id.skip("user:"@.len() as int))
    } else {
        (false, chat_id)
    }
}

/// What stands behind the first characters of a text.
fn behind(s: &str, n: usize) -> (r: String)
    requires
        n <= s@.len(),
    ensures
        r@ == s@.skip(n as int),
{
    let v = chars_of(s);
    let r = string_of(&v, n, v.len());
    assert(r@ =~= s@.skip(n as int));
    r
}

/// Whether a chat is a group, and its id on the platform.
pub fn decode_chat_id(chat_id: &str) -> (r: (bool, String))
    ensures
        (r.0, r.1@) == chat_of(chat_id@),
{
    proof {
        reveal_strlit("group:");
        reveal_strlit("user:");
    }
    if starts_with(chat_id, "group:") {
        (true, behind(chat_id, 6))
    } else if starts_with(chat_id, "user:") {
        (false, behind(chat_id, 5))
    } else {
        (false, chat_id.to_owned())
    }
}

/// Where a card for a chat is delivered.
pub open spec fn open_space(chat_id: Seq<char>) -> Seq<char> {
    let (is_group, raw) = chat_of(chat_id);
    if is_group {
        "dtv1.card//IM_GROUP."@ + raw
    } else {
        "dtv1.card//IM_ROBOT."@ + raw
    }
}

/// Where a card for a chat is delivered.
pub fn build_open_space_id(chat_id: &str) -> (r: String)
    ensures
        r@ == open_space(chat_id@),
{
    let (is_group, raw) = decode_chat_id(chat_id);
    if is_group {
        cat("dtv1.card//IM_GROUP.", raw.as_str())
    } else {
        cat("dtv1.card//IM_ROBOT.", raw.as_str())
    }
}

/// The prefix of a chat's id says what kind of chat it is, and the rest is its id on
/// the platform.
pub proof fn lemma_prefixed_chat(id: Seq<char>)
    ensures
        chat_of("group:"@ + id) == (true, id),
        chat_of("user:"@ + id) == (false, id),
{
    reveal_strlit("group:");
    reveal_strlit("user:");
    let group = "group:"@ + id;
    let user = "user:"@ + id;
    assert(group.subrange(0, 6) =~= "group:"@);
    assert(group.skip(6) =~= id);
    assert(user.subrange(0, 5) =~= "user:"@);
    assert(user.skip(5) =~= id);
    if text::begins_with(user, "group:"@) {
        assert(user.subrange(0, 6)[0] == user[0]);
    }
}

/// Whoever sends in a group is answered in the group, by its conversation; whoever
/// sends elsewhere is answered alone.
pub proof fn law_replies_go_where_the_message_came_from(
    conversation_type: Option<Seq<char>>,
    conversation_id: Seq<char>,
    sender_staff_id: Seq<char>,
)
    ensures
        conversation_type == Some("2"@) ==> open_space(
            chat_id_of(conversation_type, Some(conversation_id), sender_staff_id),
        ) == "dtv1.card//IM_GROUP."@ + conversation_id,
        conversation_type != Some("2"@) ==> open_space(
            chat_id_of(conversation_type, Some(conversation_id), sender_staff_id),
        ) == "dtv1.card//IM_ROBOT."@ + sender_staff_id,
{
    lemma_prefixed_chat(conversation_id);
    lemma_prefixed_chat(sender_staff_id);
}

/// The id of a chat says what went into it.
pub proof fn law_chat_id_is_read_back(
    conversation_type: Option<Seq<char>>,
    conversation_id: Option<Seq<char>>,
    sender_staff_id: Seq<char>,
)
    ensures
        chat_of(chat_id_of(conversation_type, conversation_id, sender_staff_id)) == if conversation_type == Some(
            "2"@,
        ) {
            (true, types::text_or_empty(conversation_id))
        } else {
            (false, sender_staff_id)
        },
{
    reveal_strlit("group:");
    reveal_strlit("user:");
    let id = chat_id_of(conversation_type, conversation_id, sender_staff_id);
    if conversation_type == Some("2"@) {
        assert(id.subrange(0, 6) =~= "group:"@);
        assert(id.skip(6) =~= types::text_or_empty(conversation_id));
    } else {
        assert(id.subrange(0, 5) =~= "user:"@);
        assert(id[0] == 'u');
        if text::begins_with(id, "group:"@) {
            assert(id.subrange(0, 6)[0] == 'g');
        }
        assert(id.skip(5) =~= sender_staff_id);
    }
}

/// An answer carries its code, its id, its message and its data.
pub proof fn law_answer_carries_its_parts(a: AckView)
    ensures
        ({
            let j = ack_json(a);
            let headers = json::field(j, "headers"@);
            &&& json::field(j, "code"@) == Some(json::JsonView::Int(a.code as int))
            &&& json::field(j, "message"@) == Some(json::JsonView::Text(a.message))
            &&& json::field(j, "data"@) == Some(json::JsonView::Text(a.data))
            &&& headers is Some && json::field(headers->0, "messageId"@) == Some(json::JsonView::Text(a.message_id))
            &&& json::field(headers->0, "contentType"@) == Some(json::JsonView::Text(a.content_type))
        }),
{
    broadcast use json::group_fields;

    reveal_strlit("headers");
    reveal_strlit("code");
    reveal_strlit("message");
    reveal_strlit("data");
    reveal_strlit("messageId");
    reveal_strlit("contentType");
    assert("headers"@.len() == 7 && "code"@.len() == 4 && "message"@.len() == 7 && "data"@.len() == 4
        && "messageId"@.len() == 9 && "contentType"@.len() == 11 && "headers"@[0] == 'h' && "code"@[0] == 'c'
        && "message"@[0] == 'm' && "data"@[0] == 'd');
}

} // verus!
