//! Requests to DingTalk's web interface, and its replies.
use vstd::prelude::*;
use vstd::string::*;

use crate::error;
use crate::error::ChannelError;
use crate::json;
use crate::json::{list, number, object, text_value, write_json, Json};
use crate::plugins::dingtalk::types as wire;
use crate::plugins::dingtalk::types::{build_open_space_id, decode_chat_id};
use crate::plugins::http;
use crate::plugins::http::{request, HttpRequest, Method};
use crate::plugins::token;
use crate::plugins::token::{token_lifetime, TokenCache};
use crate::text;
use crate::text::{cat, cat3, i64_text};
use crate::types;

verus! {

/// Where DingTalk's web interface is.
pub const DINGTALK_API_BASE: &'static str = "https://api.dingtalk.com";

/// The template of the cards that messages are streamed to.
pub const AI_CARD_TEMPLATE_ID: &'static str = "382e4302-551d-4880-bf29-a30acfab2e71.schema";

/// The reply to the request for a token.
#[derive(Debug)]
pub struct AccessTokenResponse {
    pub access_token: Option<String>,
    pub expire_in: Option<i64>,
    pub errcode: Option<i64>,
    pub errmsg: Option<String>,
}

/// Who the robot is.
#[derive(Debug)]
pub struct RobotInfoResponse {
    pub nick: Option<String>,
    pub robot_user_id: Option<String>,
}

/// Where to connect, and with which ticket.
#[derive(Debug)]
pub struct RegisterStreamResponse {
    pub endpoint: String,
    pub ticket: String,
}

// ---------------------------------------------------------------------------
// Bodies
// ---------------------------------------------------------------------------

/// The body of a request for a stream.
pub open spec fn register_body(client_id: Seq<char>, client_secret: Seq<char>) -> json::JsonView {
    json::no_members().text("clientId"@, client_id).text("clientSecret"@, client_secret).with(
        "subscriptions"@,
        json::no_items().and(subscription("EVENT"@, "*"@)).and(
            subscription("CALLBACK"@, "/v1.0/im/bot/messages/get"@),
        ).and(subscription("CALLBACK"@, "/v1.0/card/instances/callback"@)),
    ).text("ua"@, "aioncore"@)
}

/// One thing to be told about.
pub open spec fn subscription(kind: Seq<char>, topic: Seq<char>) -> json::JsonView {
    json::no_members().text("type"@, kind).text("topic"@, topic)
}

fn subscribe(kind: &str, topic: &str) -> (r: Json)
    ensures
        r@ == subscription(kind@, topic@),
{
    object().text("type", kind).text("topic", topic)
}

/// A flag.
pub open spec fn flag(b: bool) -> json::JsonView {
    json::JsonView::Bool(b)
}

fn flag_value(b: bool) -> (r: Json)
    ensures
        r@ == flag(b),
{
    Json::Bool(b)
}

/// The body that creates a card.
pub open spec fn create_body(out_track_id: Seq<char>) -> json::JsonView {
    let forward = json::no_members().with("supportForward"@, flag(true));
    json::no_members().text("cardTemplateId"@, AI_CARD_TEMPLATE_ID@).text("outTrackId"@, out_track_id).text(
        "callbackType"@,
        "STREAM"@,
    ).with("cardData"@, json::no_members().with("cardParamMap"@, json::no_members())).with(
        "imGroupOpenSpaceModel"@,
        forward,
    ).with("imRobotOpenSpaceModel"@, forward)
}

/// The body that delivers a card to a chat.
pub open spec fn deliver_body(out_track_id: Seq<char>, chat_id: Seq<char>, client_id: Seq<char>) -> json::JsonView {
    let head = json::no_members().text("outTrackId"@, out_track_id).text("openSpaceId"@, wire::open_space(chat_id)).with(
        "userIdType"@,
        json::JsonView::Int(1),
    );
    if wire::chat_of(chat_id).0 {
        head.with("imGroupOpenDeliverModel"@, json::no_members().text("robotCode"@, client_id))
    } else {
        head.with("imRobotOpenDeliverModel"@, json::no_members().text("spaceType"@, "IM_ROBOT"@))
    }
}

/// The order in which a card shows its fields, as a text.
pub open spec fn field_order() -> Seq<char> {
    json::json_text(json::no_members().with("order"@, json::no_items().and(json::JsonView::Text("msgContent"@))))
}

/// The order in which a card shows its fields, as a text.
pub fn field_order_text() -> (r: String)
    ensures
        r@ == field_order(),
{
    write_json(&object().with("order", list().and(text_value("msgContent"))))
}

/// The fields of a card with a status and a content.
pub open spec fn card_fields(head: json::JsonView, status: Seq<char>, content: Seq<char>) -> json::JsonView {
    head.text("flowStatus"@, status).text("msgContent"@, content).text("staticMsgContent"@, ""@).text(
        "sys_full_json_obj"@,
        field_order(),
    )
}

/// Puts the fields of a card with a status and a content behind others.
pub fn put_card_fields(head: Json, status: &str, content: &str) -> (r: Json)
    requires
        head@ is Object,
    ensures
        r@ == card_fields(head@, status@, content@),
{
    head.text("flowStatus", status).text("msgContent", content).text("staticMsgContent", "").text(
        "sys_full_json_obj",
        field_order_text().as_str(),
    )
}

/// The body that changes the fields of a card.
pub open spec fn update_body(out_track_id: Seq<char>, fields: json::JsonView) -> json::JsonView {
    json::no_members().text("outTrackId"@, out_track_id).with(
        "cardData"@,
        json::no_members().with("cardParamMap"@, fields),
    )
}

/// The body that writes the whole content of a card.
pub open spec fn streaming_body(
    out_track_id: Seq<char>,
    content: Seq<char>,
    is_final: bool,
    guid: Seq<char>,
) -> json::JsonView {
    json::no_members().text("outTrackId"@, out_track_id).text("key"@, "msgContent"@).text("content"@, content).with(
        "isFull"@,
        flag(true),
    ).with("isFinalize"@, flag(is_final)).with("isError"@, flag(false)).text("guid"@, guid)
}

/// The content of a robot message, as a text.
pub open spec fn robot_param(content: Seq<char>) -> Seq<char> {
    json::json_text(json::no_members().text("text"@, content).text("title"@, "Message"@))
}

/// The body of a robot message to a chat.
pub open spec fn robot_body(chat_id: Seq<char>, content: Seq<char>, client_id: Seq<char>) -> json::JsonView {
    let (is_group, raw) = wire::chat_of(chat_id);
    let head = json::no_members().text("msgKey"@, "sampleMarkdown"@).text("msgParam"@, robot_param(content)).text(
        "robotCode"@,
        client_id,
    );
    if is_group {
        head.text("openConversationId"@, raw)
    } else {
        head.with("userIds"@, json::no_items().and(json::JsonView::Text(raw)))
    }
}

/// Where a robot message to a chat goes.
pub open spec fn robot_url(chat_id: Seq<char>) -> Seq<char> {
    if wire::chat_of(chat_id).0 {
        DINGTALK_API_BASE@ + "/v1.0/robot/groupMessages/send"@
    } else {
        DINGTALK_API_BASE@ + "/v1.0/robot/oToMessages/batchSend"@
    }
}

// ---------------------------------------------------------------------------
// Requests
// ---------------------------------------------------------------------------

/// A request with a token and a body.
pub open spec fn authorized(method: Method, url: Seq<char>, token: Seq<char>, body: json::JsonView) -> http::RequestView {
    http::RequestView {
        method,
        url,
        query: Seq::empty(),
        headers: Seq::empty().push(("x-acs-dingtalk-access-token"@, token)),
        body: Some(body),
    }
}

/// The request for a token.
pub open spec fn token_request(client_id: Seq<char>, client_secret: Seq<char>) -> http::RequestView {
    http::RequestView {
        method: Method::Post,
        url: DINGTALK_API_BASE@ + "/v1.0/oauth2/accessToken"@,
        query: Seq::empty(),
        headers: Seq::empty(),
        body: Some(json::no_members().text("appKey"@, client_id).text("appSecret"@, client_secret)),
    }
}

/// The request for the identity of the robot.
pub open spec fn bot_request(token: Seq<char>) -> http::RequestView {
    authorized(Method::Post, DINGTALK_API_BASE@ + "/v1.0/im/robot/info"@, token, json::no_members())
}

/// The request for a stream.
pub open spec fn stream_request(client_id: Seq<char>, client_secret: Seq<char>) -> http::RequestView {
    http::RequestView {
        method: Method::Post,
        url: DINGTALK_API_BASE@ + "/v1.0/gateway/connections/open"@,
        query: Seq::empty(),
        headers: Seq::empty().push(("Accept"@, "application/json"@)),
        body: Some(register_body(client_id, client_secret)),
    }
}

/// The request that writes the whole content of a card.
pub open spec fn write_request(
    token: Seq<char>,
    out_track_id: Seq<char>,
    content: Seq<char>,
    is_final: bool,
    guid: Seq<char>,
) -> http::RequestView {
    authorized(
        Method::Put,
        DINGTALK_API_BASE@ + "/v1.0/card/streaming"@,
        token,
        streaming_body(out_track_id, content, is_final, guid),
    )
}

/// The request that changes the fields of a card.
pub open spec fn update_request(token: Seq<char>, out_track_id: Seq<char>, fields: json::JsonView) -> http::RequestView {
    authorized(
        Method::Put,
        DINGTALK_API_BASE@ + "/v1.0/card/instances"@,
        token,
        update_body(out_track_id, fields),
    )
}

/// The request that creates a card.
pub open spec fn create_request(token: Seq<char>, out_track_id: Seq<char>) -> http::RequestView {
    authorized(Method::Post, DINGTALK_API_BASE@ + "/v1.0/card/instances"@, token, create_body(out_track_id))
}

/// The request that delivers a card to a chat.
pub open spec fn deliver_request(
    token: Seq<char>,
    out_track_id: Seq<char>,
    chat_id: Seq<char>,
    client_id: Seq<char>,
) -> http::RequestView {
    authorized(
        Method::Post,
        DINGTALK_API_BASE@ + "/v1.0/card/instances/deliver"@,
        token,
        deliver_body(out_track_id, chat_id, client_id),
    )
}

/// The id of a robot message.
pub open spec fn robot_message_name(process_query_key: Option<Seq<char>>, now: int) -> Seq<char> {
    match process_query_key {
        Some(key) => key,
        None => "dt_msg_"@ + text::int_text(now),
    }
}

/// The address of a stream.
pub open spec fn stream_address(endpoint: Seq<char>, ticket: Seq<char>) -> Seq<char> {
    endpoint + "?ticket="@ + ticket
}

/// The request that sends a robot message to a chat.
pub open spec fn robot_request(
    token: Seq<char>,
    chat_id: Seq<char>,
    content: Seq<char>,
    client_id: Seq<char>,
) -> http::RequestView {
    authorized(Method::Post, robot_url(chat_id), token, robot_body(chat_id, content, client_id))
}

fn authorize(method: Method, url: String, token: &str, body: Json) -> (r: HttpRequest)
    ensures
        r@ == authorized(method, url@, token@, body@),
{
    request(method, url).header("x-acs-dingtalk-access-token", token).json(body)
}

/// Access to DingTalk with the id and the secret of a client.
#[derive(Debug)]
pub struct DingtalkApi {
    pub client_id: String,
    pub client_secret: String,
}

impl DingtalkApi {
    /// Access with an id and a secret.
    pub fn new(client_id: &str, client_secret: &str) -> (r: Self)
        ensures
            r.client_id@ == client_id@,
            r.client_secret@ == client_secret@,
    {
        DingtalkApi { client_id: client_id.to_owned(), client_secret: client_secret.to_owned() }
    }

    /// The id of the client.
    pub fn client_id(&self) -> (r: &str)
        ensures
            r@ == self.client_id@,
    {
        self.client_id.as_str()
    }

    /// The request for a token.
    pub fn refresh_token(&self) -> (r: HttpRequest)
        ensures
            r@ == token_request(self.client_id@, self.client_secret@),
    {
        request(Method::Post, cat(DINGTALK_API_BASE, "/v1.0/oauth2/accessToken")).json(
            object().text("appKey", self.client_id.as_str()).text("appSecret", self.client_secret.as_str()),
        )
    }

    /// The request for the identity of the robot.
    pub fn get_bot_info(&self, token: &str) -> (r: HttpRequest)
        ensures
            r@ == bot_request(token@),
    {
        authorize(Method::Post, cat(DINGTALK_API_BASE, "/v1.0/im/robot/info"), token, object())
    }

    /// The request for a stream; it carries the id and the secret instead of a
    /// token.
    pub fn register_stream(&self) -> (r: HttpRequest)
        ensures
            r@ == stream_request(self.client_id@, self.client_secret@),
    {
        let subscriptions = list().and(subscribe("EVENT", "*")).and(
            subscribe("CALLBACK", "/v1.0/im/bot/messages/get"),
        ).and(subscribe("CALLBACK", "/v1.0/card/instances/callback"));
        let body = object().text("clientId", self.client_id.as_str()).text(
            "clientSecret",
            self.client_secret.as_str(),
        ).with("subscriptions", subscriptions).text("ua", "aioncore");
        request(Method::Post, cat(DINGTALK_API_BASE, "/v1.0/gateway/connections/open")).header(
            "Accept",
            "application/json",
        ).json(body)
    }

    /// The request that creates a card.
    pub fn create_card_instance(&self, token: &str, out_track_id: &str) -> (r: HttpRequest)
        ensures
            r@ == create_request(token@, out_track_id@),
    {
        let body = object().text("cardTemplateId", AI_CARD_TEMPLATE_ID).text("outTrackId", out_track_id).text(
            "callbackType",
            "STREAM",
        ).with("cardData", object().with("cardParamMap", object())).with(
            "imGroupOpenSpaceModel",
            object().with("supportForward", flag_value(true)),
        ).with("imRobotOpenSpaceModel", object().with("supportForward", flag_value(true)));
        authorize(Method::Post, cat(DINGTALK_API_BASE, "/v1.0/card/instances"), token, body)
    }

    /// The request that delivers a card to a chat.
    pub fn deliver_card(&self, token: &str, out_track_id: &str, chat_id: &str) -> (r: HttpRequest)
        ensures
            r@ == deliver_request(token@, out_track_id@, chat_id@, self.client_id@),
    {
        let (is_group, _) = decode_chat_id(chat_id);
        let head = object().text("outTrackId", out_track_id).text(
            "openSpaceId",
            build_open_space_id(chat_id).as_str(),
        ).with("userIdType", number(1));
        let body = if is_group {
            head.with("imGroupOpenDeliverModel", object().text("robotCode", self.client_id.as_str()))
        } else {
            head.with("imRobotOpenDeliverModel", object().text("spaceType", "IM_ROBOT"))
        };
        authorize(Method::Post, cat(DINGTALK_API_BASE, "/v1.0/card/instances/deliver"), token, body)
    }

    /// The request that writes the whole content of a card.
    pub fn streaming_write(
        &self,
        token: &str,
        out_track_id: &str,
        content: &str,
        is_final: bool,
        guid: &str,
    ) -> (r: HttpRequest)
        ensures
            r@ == write_request(token@, out_track_id@, content@, is_final, guid@),
    {
        let body = object().text("outTrackId", out_track_id).text("key", "msgContent").text("content", content).with(
            "isFull",
            flag_value(true),
        ).with("isFinalize", flag_value(is_final)).with("isError", flag_value(false)).text("guid", guid);
        authorize(Method::Put, cat(DINGTALK_API_BASE, "/v1.0/card/streaming"), token, body)
    }

    /// The request that changes the fields of a card.
    pub fn update_card(&self, token: &str, out_track_id: &str, fields: Json) -> (r: HttpRequest)
        ensures
            r@ == update_request(token@, out_track_id@, fields@),
    {
        let body = object().text("outTrackId", out_track_id).with("cardData", object().with("cardParamMap", fields));
        authorize(Method::Put, cat(DINGTALK_API_BASE, "/v1.0/card/instances"), token, body)
    }

    /// The request that sends a robot message to a chat.
    pub fn send_robot_message(&self, token: &str, chat_id: &str, content: &str) -> (r: HttpRequest)
        ensures
            r@ == robot_request(token@, chat_id@, content@, self.client_id@),
    {
        let (is_group, raw) = decode_chat_id(chat_id);
        let param = write_json(&object().text("text", content).text("title", "Message"));
        let head = object().text("msgKey", "sampleMarkdown").text("msgParam", param.as_str()).text(
            "robotCode",
            self.client_id.as_str(),
        );
        if is_group {
            authorize(
                Method::Post,
                cat(DINGTALK_API_BASE, "/v1.0/robot/groupMessages/send"),
                token,
                head.text("openConversationId", raw.as_str()),
            )
        } else {
            authorize(
                Method::Post,
                cat(DINGTALK_API_BASE, "/v1.0/robot/oToMessages/batchSend"),
                token,
                head.with("userIds", list().and(text_value(raw.as_str()))),
            )
        }
    }
}

// ---------------------------------------------------------------------------
// Replies
// ---------------------------------------------------------------------------

/// What is wrong with a reply to the request for a token, if anything.
pub open spec fn token_fault(resp: AccessTokenResponse) -> Option<Seq<char>> {
    if resp.errcode matches Some(code) && code != 0 {
        Some(
            "DingTalk token error (code="@ + text::int_text(resp.errcode->0 as int) + "): "@ + (
            match resp.errmsg {
                Some(m) => m@,
                None => "unknown"@,
            }),
        )
    } else if resp.access_token is None {
        Some("DingTalk token response missing token"@)
    } else {
        None
    }
}

/// The token that a reply gives, at the time of its arrival.
pub fn token_of(resp: AccessTokenResponse, now: u64) -> (r: Result<TokenCache, ChannelError>)
    ensures
        match r {
            Ok(t) => {
                &&& token_fault(resp) is None
                &&& Some(t.token@) == types::opt_text(resp.access_token)
                &&& t.acquired_at == now
                &&& t.expires_in == token::lifetime(resp.expire_in)
            },
            Err(e) => token_fault(resp) is Some && e@ == error::ErrorView::ConnectionFailed(token_fault(resp)->0),
        },
{
    if let Some(code) = resp.errcode {
        if code != 0 {
            let msg = match resp.errmsg {
                Some(m) => m,
                None => "unknown".to_owned(),
            };
            let head = cat3("DingTalk token error (code=", i64_text(code).as_str(), "): ");
            return Err(ChannelError::ConnectionFailed(cat(head.as_str(), msg.as_str())));
        }
    }
    match resp.access_token {
        Some(t) => Ok(TokenCache { token: t, acquired_at: now, expires_in: token_lifetime(resp.expire_in) }),
        None => Err(ChannelError::ConnectionFailed("DingTalk token response missing token".to_owned())),
    }
}

/// Checks the reply to the request that creates a card.
pub fn check_created(success: Option<bool>) -> (r: Result<(), ChannelError>)
    ensures
        r is Ok <==> success == Some(true),
        r matches Err(e) ==> e@ == error::ErrorView::MessageSendFailed(
            "DingTalk create card returned success=false"@,
        ),
{
    match success {
        Some(ok) => if ok {
            Ok(())
        } else {
            Err(ChannelError::MessageSendFailed("DingTalk create card returned success=false".to_owned()))
        },
        None => Err(ChannelError::MessageSendFailed("DingTalk create card returned success=false".to_owned())),
    }
}

/// The id of a robot message: the one that the reply gives, or one made of the
/// time.
pub fn robot_message_id(process_query_key: Option<String>, now: i64) -> (r: String)
    ensures
        r@ == robot_message_name(types::opt_text(process_query_key), now as int),
{
    match process_query_key {
        Some(key) => key,
        None => cat("dt_msg_", i64_text(now).as_str()),
    }
}

/// The address of a stream: where to connect, with the ticket.
pub fn stream_url(info: &RegisterStreamResponse) -> (r: String)
    ensures
        r@ == stream_address(info.endpoint@, info.ticket@),
{
    cat3(info.endpoint.as_str(), "?ticket=", info.ticket.as_str())
}

// ---------------------------------------------------------------------------
// Laws
// ---------------------------------------------------------------------------

/// A robot message to a group goes to the group's address and names the group; one
/// to a user goes to the address for single users and names that user alone.
pub proof fn law_robot_message_goes_to_its_chat(id: Seq<char>, content: Seq<char>, client_id: Seq<char>)
    ensures
        robot_url("group:"@ + id) == "https://api.dingtalk.com/v1.0/robot/groupMessages/send"@,
        json::field(robot_body("group:"@ + id, content, client_id), "openConversationId"@) == Some(
            json::JsonView::Text(id),
        ),
        json::field(robot_body("group:"@ + id, content, client_id), "userIds"@) is None,
        robot_url("user:"@ + id) == "https://api.dingtalk.com/v1.0/robot/oToMessages/batchSend"@,
        json::field(robot_body("user:"@ + id, content, client_id), "userIds"@) == Some(
            json::JsonView::List(seq![json::JsonView::Text(id)]),
        ),
        json::field(robot_body("user:"@ + id, content, client_id), "openConversationId"@) is None,
{
    broadcast use json::group_fields;

    reveal_strlit("https://api.dingtalk.com");
    reveal_strlit("/v1.0/robot/groupMessages/send");
    reveal_strlit("/v1.0/robot/oToMessages/batchSend");
    reveal_strlit("https://api.dingtalk.com/v1.0/robot/groupMessages/send");
    reveal_strlit("https://api.dingtalk.com/v1.0/robot/oToMessages/batchSend");
    reveal_strlit("msgKey");
    reveal_strlit("msgParam");
    reveal_strlit("robotCode");
    reveal_strlit("openConversationId");
    reveal_strlit("userIds");
    assert("msgKey"@.len() == 6 && "msgParam"@.len() == 8 && "robotCode"@.len() == 9
        && "openConversationId"@.len() == 18 && "userIds"@.len() == 7);
    wire::lemma_prefixed_chat(id);
    assert(DINGTALK_API_BASE@ + "/v1.0/robot/groupMessages/send"@
        =~= "https://api.dingtalk.com/v1.0/robot/groupMessages/send"@);
    assert(DINGTALK_API_BASE@ + "/v1.0/robot/oToMessages/batchSend"@
        =~= "https://api.dingtalk.com/v1.0/robot/oToMessages/batchSend"@);
    assert(json::items_of(json::no_items()).push(json::JsonView::Text(id)) =~= seq![json::JsonView::Text(id)]);
}

/// Whatever the chat, a robot message is sent by the robot of the client, as
/// markdown, and its text is the content.
pub proof fn law_robot_message_carries_its_content(chat_id: Seq<char>, content: Seq<char>, client_id: Seq<char>)
    ensures
        json::field(robot_body(chat_id, content, client_id), "robotCode"@) == Some(json::JsonView::Text(client_id)),
        json::field(robot_body(chat_id, content, client_id), "msgKey"@) == Some(
            json::JsonView::Text("sampleMarkdown"@),
        ),
        exists|param: json::JsonView|
            json::field(robot_body(chat_id, content, client_id), "msgParam"@) == Some(
                json::JsonView::Text(#[trigger] json::json_text(param)),
            ) && json::field(param, "text"@) == Some(json::JsonView::Text(content)),
{
    broadcast use json::group_fields;

    reveal_strlit("msgKey");
    reveal_strlit("msgParam");
    reveal_strlit("robotCode");
    reveal_strlit("openConversationId");
    reveal_strlit("userIds");
    reveal_strlit("text");
    reveal_strlit("title");
    assert("msgKey"@.len() == 6 && "msgParam"@.len() == 8 && "robotCode"@.len() == 9
        && "openConversationId"@.len() == 18 && "userIds"@.len() == 7 && "text"@.len() == 4
        && "title"@.len() == 5);
    let param = json::no_members().text("text"@, content).text("title"@, "Message"@);
    assert(json::field(param, "text"@) == Some(json::JsonView::Text(content)));
    assert(json::field(robot_body(chat_id, content, client_id), "msgParam"@) == Some(
        json::JsonView::Text(json::json_text(param)),
    ));
}

/// A card for a group is delivered into the space of that group, by the robot of the
/// client; one for a user into the space of the robot and that user.
pub proof fn law_card_goes_to_its_chat(id: Seq<char>, out_track_id: Seq<char>, client_id: Seq<char>)
    ensures
        ({
            let group = deliver_body(out_track_id, "group:"@ + id, client_id);
            &&& json::field(group, "openSpaceId"@) == Some(json::JsonView::Text("dtv1.card//IM_GROUP."@ + id))
            &&& json::field(group, "imGroupOpenDeliverModel"@) matches Some(m) && json::field(m, "robotCode"@) == Some(
                json::JsonView::Text(client_id),
            )
            &&& json::field(group, "imRobotOpenDeliverModel"@) is None
            &&& json::field(group, "outTrackId"@) == Some(json::JsonView::Text(out_track_id))
        }),
        ({
            let user = deliver_body(out_track_id, "user:"@ + id, client_id);
            &&& json::field(user, "openSpaceId"@) == Some(json::JsonView::Text("dtv1.card//IM_ROBOT."@ + id))
            &&& json::field(user, "imRobotOpenDeliverModel"@) matches Some(m) && json::field(m, "spaceType"@) == Some(
                json::JsonView::Text("IM_ROBOT"@),
            )
            &&& json::field(user, "imGroupOpenDeliverModel"@) is None
            &&& json::field(user, "outTrackId"@) == Some(json::JsonView::Text(out_track_id))
        }),
{
    broadcast use json::group_fields;

    reveal_strlit("outTrackId");
    reveal_strlit("openSpaceId");
    reveal_strlit("userIdType");
    reveal_strlit("imGroupOpenDeliverModel");
    reveal_strlit("imRobotOpenDeliverModel");
    assert("outTrackId"@.len() == 10 && "openSpaceId"@.len() == 11 && "userIdType"@.len() == 10
        && "imGroupOpenDeliverModel"@.len() == 23 && "imRobotOpenDeliverModel"@.len() == 23
        && "outTrackId"@[0] == 'o' && "userIdType"@[0] == 'u' && "imGroupOpenDeliverModel"@[2] == 'G'
        && "imRobotOpenDeliverModel"@[2] == 'R');
    wire::lemma_prefixed_chat(id);
}

/// What is written to a card is the whole content of that card, and ends it exactly
/// if it is the last write.
pub proof fn law_write_is_the_whole_content(
    out_track_id: Seq<char>,
    content: Seq<char>,
    is_final: bool,
    guid: Seq<char>,
)
    ensures
        ({
            let body = streaming_body(out_track_id, content, is_final, guid);
            &&& json::field(body, "outTrackId"@) == Some(json::JsonView::Text(out_track_id))
            &&& json::field(body, "key"@) == Some(json::JsonView::Text("msgContent"@))
            &&& json::field(body, "content"@) == Some(json::JsonView::Text(content))
            &&& json::field(body, "isFull"@) == Some(json::JsonView::Bool(true))
            &&& json::field(body, "isFinalize"@) == Some(json::JsonView::Bool(is_final))
            &&& json::field(body, "isError"@) == Some(json::JsonView::Bool(false))
            &&& json::field(body, "guid"@) == Some(json::JsonView::Text(guid))
        }),
{
    broadcast use json::group_fields;

    reveal_strlit("outTrackId");
    reveal_strlit("key");
    reveal_strlit("content");
    reveal_strlit("isFull");
    reveal_strlit("isFinalize");
    reveal_strlit("isError");
    reveal_strlit("guid");
    assert("outTrackId"@.len() == 10 && "key"@.len() == 3 && "content"@.len() == 7 && "isFull"@.len() == 6
        && "isFinalize"@.len() == 10 && "isError"@.len() == 7 && "guid"@.len() == 4 && "outTrackId"@[0] == 'o'
        && "content"@[0] == 'c' && "isFinalize"@[0] == 'i' && "isError"@[0] == 'i');
}

/// A card that is created, and one whose fields are changed, are the card of that id;
/// a new card is of the template that content can be streamed to, and reports to the
/// stream.
pub proof fn law_cards_keep_their_id(
    out_track_id: Seq<char>,
    head: json::JsonView,
    status: Seq<char>,
    content: Seq<char>,
)
    requires
        head == json::no_members() || head == json::no_members().with("actions"@, json::field(head, "actions"@)->0),
    ensures
        json::field(create_body(out_track_id), "outTrackId"@) == Some(json::JsonView::Text(out_track_id)),
        json::field(create_body(out_track_id), "cardTemplateId"@) == Some(
            json::JsonView::Text("382e4302-551d-4880-bf29-a30acfab2e71.schema"@),
        ),
        json::field(create_body(out_track_id), "callbackType"@) == Some(json::JsonView::Text("STREAM"@)),
        json::field(update_body(out_track_id, card_fields(head, status, content)), "outTrackId"@) == Some(
            json::JsonView::Text(out_track_id),
        ),
        ({
            let data = json::field(update_body(out_track_id, card_fields(head, status, content)), "cardData"@);
            let fields = json::field(data->0, "cardParamMap"@);
            &&& data is Some
            &&& fields is Some
            &&& json::field(fields->0, "flowStatus"@) == Some(json::JsonView::Text(status))
            &&& json::field(fields->0, "msgContent"@) == Some(json::JsonView::Text(content))
            &&& json::field(fields->0, "actions"@) == json::field(head, "actions"@)
        }),
{
    broadcast use json::group_fields;

    reveal_strlit("outTrackId");
    reveal_strlit("cardTemplateId");
    reveal_strlit("callbackType");
    reveal_strlit("cardData");
    reveal_strlit("flowStatus");
    reveal_strlit("msgContent");
    reveal_strlit("staticMsgContent");
    reveal_strlit("sys_full_json_obj");
    reveal_strlit("actions");
    assert("outTrackId"@.len() == 10 && "cardTemplateId"@.len() == 14 && "callbackType"@.len() == 12
        && "cardData"@.len() == 8 && "flowStatus"@.len() == 10 && "msgContent"@.len() == 10
        && "staticMsgContent"@.len() == 16 && "sys_full_json_obj"@.len() == 17 && "actions"@.len() == 7
        && "outTrackId"@[0] == 'o' && "flowStatus"@[0] == 'f' && "msgContent"@[0] == 'm');
}

/// Every request is made with the token, and with nothing else in its head.
pub proof fn law_requests_carry_the_token(method: Method, url: Seq<char>, token: Seq<char>, body: json::JsonView)
    ensures
        authorized(method, url, token, body).headers == seq![("x-acs-dingtalk-access-token"@, token)],
        authorized(method, url, token, body).method == method,
        authorized(method, url, token, body).url == url,
        authorized(method, url, token, body).body == Some(body),
        authorized(method, url, token, body).query.len() == 0,
{
    assert(Seq::empty().push(("x-acs-dingtalk-access-token"@, token)) =~= seq![("x-acs-dingtalk-access-token"@, token)]);
}

/// A client registers with its own id and secret, and is told about every event,
/// every message to its robot and every button of its cards.
pub proof fn law_registration_names_the_client(client_id: Seq<char>, client_secret: Seq<char>)
    ensures
        ({
            let body = register_body(client_id, client_secret);
            let topics = json::field(body, "subscriptions"@);
            let about = |i: int| json::items_of(topics->0)[i];
            &&& json::field(body, "clientId"@) == Some(json::JsonView::Text(client_id))
            &&& json::field(body, "clientSecret"@) == Some(json::JsonView::Text(client_secret))
            &&& topics is Some
            &&& json::items_of(topics->0).len() == 3
            &&& json::field(about(0), "type"@) == Some(json::JsonView::Text("EVENT"@))
            &&& json::field(about(0), "topic"@) == Some(json::JsonView::Text("*"@))
            &&& json::field(about(1), "type"@) == Some(json::JsonView::Text("CALLBACK"@))
            &&& json::field(about(1), "topic"@) == Some(json::JsonView::Text("/v1.0/im/bot/messages/get"@))
            &&& json::field(about(2), "type"@) == Some(json::JsonView::Text("CALLBACK"@))
            &&& json::field(about(2), "topic"@) == Some(json::JsonView::Text("/v1.0/card/instances/callback"@))
        }),
{
    broadcast use json::group_fields;

    reveal_strlit("clientId");
    reveal_strlit("clientSecret");
    reveal_strlit("subscriptions");
    reveal_strlit("ua");
    reveal_strlit("type");
    reveal_strlit("topic");
    assert("clientId"@.len() == 8 && "clientSecret"@.len() == 12 && "subscriptions"@.len() == 13
        && "ua"@.len() == 2 && "type"@.len() == 4 && "topic"@.len() == 5);
}

/// A reply gives a token unless it reports an error or holds none.
pub proof fn law_only_errors_withhold_the_token(resp: AccessTokenResponse)
    ensures
        token_fault(resp) is None <==> (resp.access_token is Some && (resp.errcode is None || resp.errcode == Some(
            0i64,
        ))),
        (resp.errcode is Some && resp.errcode->0 != 0) ==> text::has_text(
            token_fault(resp)->0,
            text::int_text(resp.errcode->0 as int),
        ),
        (resp.errcode is Some && resp.errcode->0 != 0) && resp.errmsg is Some ==> token_fault(resp) == Some(
            "DingTalk token error (code="@ + text::int_text(resp.errcode->0 as int) + "): "@ + resp.errmsg->0@,
        ),
        (resp.errcode is None || resp.errcode == Some(0i64)) && resp.access_token is None ==> token_fault(resp) == Some(
            "DingTalk token response missing token"@,
        ),
{
    if resp.errcode is Some && resp.errcode->0 != 0 {
        reveal_strlit("DingTalk token error (code=");
        let words = token_fault(resp)->0;
        let code = text::int_text(resp.errcode->0 as int);
        assert(words.subrange(27, 27 + code.len() as int) =~= code);
        assert(text::occurs_at(words, code, 27));
    }
}

/// Each request goes to its own address, and carries what it is about.
pub proof fn law_requests_go_to_their_address(
    client_id: Seq<char>,
    client_secret: Seq<char>,
    token: Seq<char>,
    out_track_id: Seq<char>,
    chat_id: Seq<char>,
    content: Seq<char>,
    is_final: bool,
    guid: Seq<char>,
    fields: json::JsonView,
)
    ensures
        ({
            let q = token_request(client_id, client_secret);
            &&& q.url == "https://api.dingtalk.com/v1.0/oauth2/accessToken"@
            &&& q.method == Method::Post
            &&& json::field(q.body->0, "appKey"@) == Some(json::JsonView::Text(client_id))
            &&& json::field(q.body->0, "appSecret"@) == Some(json::JsonView::Text(client_secret))
        }),
        ({
            let q = stream_request(client_id, client_secret);
            &&& q.url == "https://api.dingtalk.com/v1.0/gateway/connections/open"@
            &&& q.method == Method::Post
            &&& q.body == Some(register_body(client_id, client_secret))
        }),
        bot_request(token).url == "https://api.dingtalk.com/v1.0/im/robot/info"@,
        bot_request(token).method == Method::Post,
        bot_request(token).headers == seq![("x-acs-dingtalk-access-token"@, token)],
        ({
            let q = write_request(token, out_track_id, content, is_final, guid);
            &&& q.url == "https://api.dingtalk.com/v1.0/card/streaming"@
            &&& q.method == Method::Put
            &&& q.body == Some(streaming_body(out_track_id, content, is_final, guid))
            &&& q.headers == seq![("x-acs-dingtalk-access-token"@, token)]
        }),
        ({
            let q = update_request(token, out_track_id, fields);
            &&& q.url == "https://api.dingtalk.com/v1.0/card/instances"@
            &&& q.method == Method::Put
            &&& q.body == Some(update_body(out_track_id, fields))
            &&& q.headers == seq![("x-acs-dingtalk-access-token"@, token)]
        }),
        ({
            let q = robot_request(token, chat_id, content, client_id);
            &&& q.url == robot_url(chat_id)
            &&& q.method == Method::Post
            &&& q.body == Some(robot_body(chat_id, content, client_id))
            &&& q.headers == seq![("x-acs-dingtalk-access-token"@, token)]
        }),
{
    broadcast use json::group_fields;

    reveal_strlit("appKey");
    reveal_strlit("appSecret");
    assert("appKey"@.len() == 6 && "appSecret"@.len() == 9);
    reveal_strlit("https://api.dingtalk.com");
    reveal_strlit("/v1.0/oauth2/accessToken");
    reveal_strlit("https://api.dingtalk.com/v1.0/oauth2/accessToken");
    assert(DINGTALK_API_BASE@ + "/v1.0/oauth2/accessToken"@ =~= "https://api.dingtalk.com/v1.0/oauth2/accessToken"@);
    reveal_strlit("/v1.0/gateway/connections/open");
    reveal_strlit("https://api.dingtalk.com/v1.0/gateway/connections/open");
    assert(DINGTALK_API_BASE@ + "/v1.0/gateway/connections/open"@ =~= "https://api.dingtalk.com/v1.0/gateway/connections/open"@);
    reveal_strlit("/v1.0/im/robot/info");
    reveal_strlit("https://api.dingtalk.com/v1.0/im/robot/info");
    assert(DINGTALK_API_BASE@ + "/v1.0/im/robot/info"@ =~= "https://api.dingtalk.com/v1.0/im/robot/info"@);
    reveal_strlit("/v1.0/card/streaming");
    reveal_strlit("https://api.dingtalk.com/v1.0/card/streaming");
    assert(DINGTALK_API_BASE@ + "/v1.0/card/streaming"@ =~= "https://api.dingtalk.com/v1.0/card/streaming"@);
    reveal_strlit("/v1.0/card/instances");
    reveal_strlit("https://api.dingtalk.com/v1.0/card/instances");
    assert(DINGTALK_API_BASE@ + "/v1.0/card/instances"@ =~= "https://api.dingtalk.com/v1.0/card/instances"@);
    law_requests_carry_the_token(Method::Post, robot_url(chat_id), token, robot_body(chat_id, content, client_id));
}

/// A card is made first and then delivered to its chat, each at its own address.
pub proof fn law_card_is_made_and_delivered(
    token: Seq<char>,
    out_track_id: Seq<char>,
    chat_id: Seq<char>,
    client_id: Seq<char>,
)
    ensures
        create_request(token, out_track_id).url == "https://api.dingtalk.com/v1.0/card/instances"@,
        create_request(token, out_track_id).method == Method::Post,
        create_request(token, out_track_id).body == Some(create_body(out_track_id)),
        create_request(token, out_track_id).headers == seq![("x-acs-dingtalk-access-token"@, token)],
        deliver_request(token, out_track_id, chat_id, client_id).headers == seq![("x-acs-dingtalk-access-token"@, token)],
        deliver_request(token, out_track_id, chat_id, client_id).url
            == "https://api.dingtalk.com/v1.0/card/instances/deliver"@,
        deliver_request(token, out_track_id, chat_id, client_id).method == Method::Post,
        deliver_request(token, out_track_id, chat_id, client_id).body == Some(
            deliver_body(out_track_id, chat_id, client_id),
        ),
{
    reveal_strlit("https://api.dingtalk.com");
    reveal_strlit("/v1.0/card/instances");
    reveal_strlit("https://api.dingtalk.com/v1.0/card/instances");
    assert(DINGTALK_API_BASE@ + "/v1.0/card/instances"@ =~= "https://api.dingtalk.com/v1.0/card/instances"@);
    reveal_strlit("/v1.0/card/instances/deliver");
    reveal_strlit("https://api.dingtalk.com/v1.0/card/instances/deliver");
    assert(DINGTALK_API_BASE@ + "/v1.0/card/instances/deliver"@ =~= "https://api.dingtalk.com/v1.0/card/instances/deliver"@);
    law_requests_carry_the_token(Method::Post, chat_id, token, create_body(out_track_id));
}

/// A robot message is known by the key that the reply gives, and by the time where it gives
/// none; a stream is opened where the reply says, with the ticket at the end.
pub proof fn law_replies_name_what_they_opened(key: Seq<char>, now: int, endpoint: Seq<char>, ticket: Seq<char>)
    ensures
        robot_message_name(Some(key), now) == key,
        robot_message_name(None, now) == "dt_msg_"@ + text::int_text(now),
        stream_address(endpoint, ticket).take(endpoint.len() as int) == endpoint,
        stream_address(endpoint, ticket).skip(endpoint.len() as int + 8) == ticket,
        stream_address(endpoint, ticket).subrange(endpoint.len() as int, endpoint.len() as int + 8) == "?ticket="@,
{
    reveal_strlit("?ticket=");
    let a = stream_address(endpoint, ticket);
    assert(a.take(endpoint.len() as int) =~= endpoint);
    assert(a.skip(endpoint.len() as int + 8) =~= ticket);
    assert(a.subrange(endpoint.len() as int, endpoint.len() as int + 8) =~= "?ticket="@);
}

/// A card shows one field, the content of the message.
pub proof fn law_card_shows_its_content_first()
    ensures
        field_order() == json::json_text(
            json::no_members().with("order"@, json::no_items().and(json::JsonView::Text("msgContent"@))),
        ),
{
}

} // verus!
