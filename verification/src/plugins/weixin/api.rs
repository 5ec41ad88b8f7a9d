//! Requests to the WeChat bot interface, and its replies.
use vstd::prelude::*;
use vstd::string::*;

use super::types::{ILinkResponse, QrCodeData, QrCodeStatusData, ITEM_TYPE_TEXT};
use crate::error;
use crate::error::ChannelError;
use crate::json;
use crate::json::{list, number, object, Json};
use crate::plugins::http;
use crate::plugins::http::{request, HttpRequest, Method};
use crate::random;
use crate::random::{id_from_draw, random_bytes};
use crate::text;
use crate::text::{cat, cat3, cat4, trim_tail};
use crate::types;

verus! {

// ---------------------------------------------------------------------------
// Outside functions
// ---------------------------------------------------------------------------

/// The character of a number below sixty-four.
pub open spec fn base64_char(n: int) -> char {
    "ABCDEFGHIJKLMNOPQRSTUVWXYZabcdefghijklmnopqrstuvwxyz0123456789+/"@[n]
}

/// Four bytes in base64, with the standard alphabet and with padding: six bits to
/// a character, from the left.
pub open spec fn base64_standard(b: Seq<u8>) -> Seq<char> {
    seq![
        base64_char(b[0] as int / 4),
        base64_char((b[0] % 4) * 16 + b[1] as int / 16),
        base64_char((b[1] % 16) * 4 + b[2] as int / 64),
        base64_char((b[2] % 64) as int),
        base64_char(b[3] as int / 4),
        base64_char((b[3] % 4) * 16),
        '=',
        '=',
    ]
}

/// `base64::Engine::encode` of the standard engine, on four bytes: their text in
/// the standard alphabet, padded.
#[verifier::external_body]
fn encode_base64(bytes: [u8; 4]) -> (r: String)
    ensures
        r@ == base64_standard(bytes@),
{
    base64::Engine::encode(&base64::engine::general_purpose::STANDARD, bytes)
}

// ---------------------------------------------------------------------------
// Requests
// ---------------------------------------------------------------------------

/// Access to the interface with the token of a bot.
#[derive(Debug)]
pub struct WeixinApi {
    pub base_url: String,
    pub bot_token: String,
    pub wechat_uin: String,
}

/// A request with a token and a body.
pub open spec fn authorized(a: WeixinApi, endpoint: Seq<char>, body: json::JsonView) -> http::RequestView {
    http::RequestView {
        method: Method::Post,
        url: a.base_url@ + "/"@ + endpoint,
        query: Seq::empty(),
        headers: Seq::empty().push(("Content-Type"@, "application/json"@)).push(
            ("AuthorizationType"@, "ilink_bot_token"@),
        ).push(("Authorization"@, "Bearer "@ + a.bot_token@)).push(("X-WECHAT-UIN"@, a.wechat_uin@)),
        body: Some(body),
    }
}

/// A request without a token, with one parameter.
pub open spec fn anonymous(a: WeixinApi, endpoint: Seq<char>, name: Seq<char>, value: Seq<char>) -> http::RequestView {
    http::RequestView {
        method: Method::Get,
        url: a.base_url@ + "/"@ + endpoint,
        query: Seq::empty().push((name, value)),
        headers: Seq::empty().push(("iLink-App-ClientVersion"@, "1"@)),
        body: None,
    }
}

/// The body of a poll: how far the last one came.
pub open spec fn poll_body(buf: Seq<char>) -> json::JsonView {
    json::no_members().text("get_updates_buf"@, buf).with("base_info"@, json::no_members())
}

/// The body of a message to a user.
pub open spec fn message_body(
    to_user_id: Seq<char>,
    client_id: Seq<char>,
    content: Seq<char>,
    context_token: Option<Seq<char>>,
) -> json::JsonView {
    let item = json::no_members().with("type"@, json::JsonView::Int(ITEM_TYPE_TEXT as int)).with(
        "text_item"@,
        json::no_members().text("text"@, content),
    );
    let msg = json::no_members().text("to_user_id"@, to_user_id).text("client_id"@, client_id).with(
        "message_type"@,
        json::JsonView::Int(2),
    ).with("message_state"@, json::JsonView::Int(2)).with("item_list"@, json::no_items().and(item)).opt_text(
        "context_token"@,
        context_token,
    );
    json::no_members().with("msg"@, msg).with("base_info"@, json::no_members())
}

/// The request for a QR code.
pub open spec fn qrcode_request(a: WeixinApi) -> http::RequestView {
    anonymous(a, "ilink/bot/get_bot_qrcode"@, "bot_type"@, "3"@)
}

/// The request for what became of a QR code.
pub open spec fn status_request(a: WeixinApi, qrcode: Seq<char>) -> http::RequestView {
    anonymous(a, "ilink/bot/get_qrcode_status"@, "qrcode"@, qrcode)
}

/// The request that polls for messages.
pub open spec fn poll_request(a: WeixinApi, buf: Seq<char>) -> http::RequestView {
    authorized(a, "ilink/bot/getupdates"@, poll_body(buf))
}

/// The request that sends a message to a user.
pub open spec fn message_request(
    a: WeixinApi,
    to_user_id: Seq<char>,
    client_id: Seq<char>,
    content: Seq<char>,
    context_token: Option<Seq<char>>,
) -> http::RequestView {
    authorized(a, "ilink/bot/sendmessage"@, message_body(to_user_id, client_id, content, context_token))
}

impl WeixinApi {
    /// Access with a token, under a number of four bytes.
    pub fn with_uin(base_url: &str, bot_token: &str, uin: [u8; 4]) -> (r: Self)
        ensures
            r.base_url@ == text::without_tail(base_url@, '/'),
            r.bot_token@ == bot_token@,
            r.wechat_uin@ == base64_standard(uin@),
            r.wechat_uin@.len() == 8,
    {
        WeixinApi {
            base_url: trim_tail(base_url, '/'),
            bot_token: bot_token.to_owned(),
            wechat_uin: encode_base64(uin),
        }
    }

    /// Access with a token, under the number that a random draw gave, or the
    /// words of a draw that failed.
    pub fn from_draw(base_url: &str, bot_token: &str, draw: Result<[u8; 4], String>) -> (r: Result<Self, String>)
        ensures
            match (draw, r) {
                (Ok(uin), Ok(a)) => {
                    &&& a.base_url@ == text::without_tail(base_url@, '/')
                    &&& a.bot_token@ == bot_token@
                    &&& a.wechat_uin@ == base64_standard(uin@)
                    &&& a.wechat_uin@.len() == 8
                },
                (Err(e), Err(words)) => words@ == e@,
                _ => false,
            },
    {
        match draw {
            Ok(uin) => Ok(WeixinApi::with_uin(base_url, bot_token, uin)),
            Err(e) => Err(e),
        }
    }

    /// Access with a token, under a random number; the words of the failure
    /// where there is no randomness to be had.
    pub fn new(base_url: &str, bot_token: &str) -> (r: Result<Self, String>)
        ensures
            r matches Ok(a) ==> {
                &&& a.base_url@ == text::without_tail(base_url@, '/')
                &&& a.bot_token@ == bot_token@
                &&& exists|uin: [u8; 4]| a.wechat_uin@ == #[trigger] base64_standard(uin@)
                &&& a.wechat_uin@.len() == 8
            },
    {
        WeixinApi::from_draw(base_url, bot_token, random_bytes())
    }

    /// The token of the bot.
    pub fn bot_token(&self) -> (r: &str)
        ensures
            r@ == self.bot_token@,
    {
        self.bot_token.as_str()
    }

    /// The number of this access.
    pub fn wechat_uin(&self) -> (r: &str)
        ensures
            r@ == self.wechat_uin@,
    {
        self.wechat_uin.as_str()
    }

    fn authorize(&self, endpoint: &str, body: Json) -> (r: HttpRequest)
        ensures
            r@ == authorized(*self, endpoint@, body@),
    {
        request(Method::Post, cat3(self.base_url.as_str(), "/", endpoint)).header(
            "Content-Type",
            "application/json",
        ).header("AuthorizationType", "ilink_bot_token").header(
            "Authorization",
            cat("Bearer ", self.bot_token.as_str()).as_str(),
        ).header("X-WECHAT-UIN", self.wechat_uin.as_str()).json(body)
    }

    fn ask(&self, endpoint: &str, name: &str, value: &str) -> (r: HttpRequest)
        ensures
            r@ == anonymous(*self, endpoint@, name@, value@),
    {
        request(Method::Get, cat3(self.base_url.as_str(), "/", endpoint)).param(name, value).header(
            "iLink-App-ClientVersion",
            "1",
        )
    }

    /// The request for a QR code.
    pub fn get_bot_qrcode(&self) -> (r: HttpRequest)
        ensures
            r@ == qrcode_request(*self),
    {
        self.ask("ilink/bot/get_bot_qrcode", "bot_type", "3")
    }

    /// The request for what became of a QR code.
    pub fn get_qrcode_status(&self, qrcode: &str) -> (r: HttpRequest)
        ensures
            r@ == status_request(*self, qrcode@),
    {
        self.ask("ilink/bot/get_qrcode_status", "qrcode", qrcode)
    }

    /// The request that polls for messages.
    pub fn get_updates(&self, buf: &str) -> (r: HttpRequest)
        ensures
            r@ == poll_request(*self, buf@),
    {
        self.authorize("ilink/bot/getupdates", object().text("get_updates_buf", buf).with("base_info", object()))
    }

    /// The request that sends a message under an id.
    pub fn send_message_as(
        &self,
        client_id: &str,
        to_user_id: &str,
        content: &str,
        context_token: Option<&str>,
    ) -> (r: HttpRequest)
        ensures
            r@ == message_request(*self, to_user_id@, client_id@, content@, types::opt_str(context_token)),
    {
        let item = object().with("type", number(1)).with("text_item", object().text("text", content));
        let msg = object().text("to_user_id", to_user_id).text("client_id", client_id).with(
            "message_type",
            number(2),
        ).with("message_state", number(2)).with("item_list", list().and(item)).opt_text(
            "context_token",
            context_token,
        );
        self.authorize("ilink/bot/sendmessage", object().with("msg", msg).with("base_info", object()))
    }

    /// The request that sends a message under the id that a random draw gives, or
    /// the error of a draw that failed.
    pub fn send_message_drawn(
        &self,
        to_user_id: &str,
        content: &str,
        context_token: Option<&str>,
        draw: Result<[u8; 16], String>,
    ) -> (r: Result<HttpRequest, ChannelError>)
        ensures
            match (draw, r) {
                (Ok(bytes), Ok(q)) => q@ == message_request(
                    *self,
                    to_user_id@,
                    random::uuid_of(bytes@),
                    content@,
                    types::opt_str(context_token),
                ),
                (Err(e), Err(x)) => x@ == error::ErrorView::MessageSendFailed(random::draw_failure(e@)),
                _ => false,
            },
    {
        match id_from_draw(draw) {
            Ok(id) => Ok(self.send_message_as(id.as_str(), to_user_id, content, context_token)),
            Err(words) => Err(ChannelError::MessageSendFailed(words)),
        }
    }

    /// The request that sends a message under a random id.
    pub fn send_message(&self, to_user_id: &str, content: &str, context_token: Option<&str>) -> (r: Result<
        HttpRequest,
        ChannelError,
    >)
        ensures
            match r {
                Ok(q) => exists|bytes: [u8; 16]|
                    q@ == message_request(
                        *self,
                        to_user_id@,
                        #[trigger] random::uuid_of(bytes@),
                        content@,
                        types::opt_str(context_token),
                    ),
                Err(e) => exists|why: Seq<char>|
                    e@ == error::ErrorView::MessageSendFailed(#[trigger] random::draw_failure(why)),
            },
    {
        self.send_message_drawn(to_user_id, content, context_token, random_bytes())
    }
}

// ---------------------------------------------------------------------------
// Replies
// ---------------------------------------------------------------------------

/// The failure to send a request.
pub fn request_failed(endpoint: &str, reason: &str) -> (r: ChannelError)
    ensures
        r@ == error::ErrorView::PlatformApi(endpoint@ + " request failed: "@ + reason@),
{
    ChannelError::PlatformApi(cat3(endpoint, " request failed: ", reason))
}

/// The failure to read a reply.
pub fn parse_failed(endpoint: &str, reason: &str) -> (r: ChannelError)
    ensures
        r@ == error::ErrorView::PlatformApi(endpoint@ + " parse failed: "@ + reason@),
{
    ChannelError::PlatformApi(cat3(endpoint, " parse failed: ", reason))
}

/// Checks the status of a reply.
pub fn check_status(endpoint: &str, success: bool, status: &str, body: &str) -> (r: Result<(), ChannelError>)
    ensures
        r is Ok <==> success,
        r matches Err(e) ==> e@ == error::ErrorView::PlatformApi(
            endpoint@ + " HTTP "@ + status@ + ": "@ + body@,
        ),
{
    if success {
        Ok(())
    } else {
        Err(ChannelError::PlatformApi(cat(cat4(endpoint, " HTTP ", status, ": ").as_str(), body)))
    }
}

/// The failure to send a message.
pub fn send_failed(e: &ChannelError) -> (r: ChannelError)
    ensures
        r@ == error::ErrorView::MessageSendFailed("sendmessage failed: "@ + error::error_text(e@)),
{
    ChannelError::MessageSendFailed(cat("sendmessage failed: ", e.message().as_str()))
}

/// A QR code from a reply without a wrapping, where it has a ticket; otherwise
/// the wrapped form has to be asked for.
pub fn direct_qrcode(reply: Option<QrCodeData>) -> (r: Option<QrCodeData>)
    ensures
        r == match reply {
            Some(d) => if d.qrcode is Some {
                reply
            } else {
                None
            },
            None => None,
        },
{
    match reply {
        Some(d) => if d.qrcode.is_some() {
            Some(d)
        } else {
            None
        },
        None => None,
    }
}

/// A QR code from a wrapped reply.
pub fn wrapped_qrcode(reply: ILinkResponse<QrCodeData>) -> (r: Result<QrCodeData, ChannelError>)
    ensures
        match r {
            Ok(d) => reply.data == Some(d),
            Err(e) => reply.data is None && e@ == error::ErrorView::PlatformApi("get_bot_qrcode returned no data"@),
        },
{
    match reply.data {
        Some(d) => Ok(d),
        None => Err(ChannelError::PlatformApi("get_bot_qrcode returned no data".to_owned())),
    }
}

/// What became of a QR code, from a reply without a wrapping, where it has a
/// status; otherwise the wrapped form has to be asked for.
pub fn direct_status(reply: Option<QrCodeStatusData>) -> (r: Option<QrCodeStatusData>)
    ensures
        r == match reply {
            Some(d) => if d.status is Some {
                reply
            } else {
                None
            },
            None => None,
        },
{
    match reply {
        Some(d) => if d.status.is_some() {
            Some(d)
        } else {
            None
        },
        None => None,
    }
}

/// What became of a QR code, from a wrapped reply.
pub fn wrapped_status(reply: ILinkResponse<QrCodeStatusData>) -> (r: Result<QrCodeStatusData, ChannelError>)
    ensures
        match r {
            Ok(d) => reply.data == Some(d),
            Err(e) => reply.data is None && e@ == error::ErrorView::PlatformApi(
                "get_qrcode_status returned no data"@,
            ),
        },
{
    match reply.data {
        Some(d) => Ok(d),
        None => Err(ChannelError::PlatformApi("get_qrcode_status returned no data".to_owned())),
    }
}

// ---------------------------------------------------------------------------
// Laws
// ---------------------------------------------------------------------------

/// A message goes to its user, under its id, as one finished text from the bot, and in
/// the context of the conversation exactly if that is known.
pub proof fn law_message_goes_to_its_user(
    to_user_id: Seq<char>,
    client_id: Seq<char>,
    content: Seq<char>,
    context_token: Option<Seq<char>>,
)
    ensures
        ({
            let msg = json::field(message_body(to_user_id, client_id, content, context_token), "msg"@);
            let items = json::field(msg->0, "item_list"@);
            let item = json::items_of(items->0)[0];
            let words = json::field(item, "text_item"@);
            &&& msg is Some
            &&& json::field(msg->0, "to_user_id"@) == Some(json::JsonView::Text(to_user_id))
            &&& json::field(msg->0, "client_id"@) == Some(json::JsonView::Text(client_id))
            &&& json::field(msg->0, "message_type"@) == Some(json::JsonView::Int(2))
            &&& json::field(msg->0, "message_state"@) == Some(json::JsonView::Int(2))
            &&& json::field(msg->0, "context_token"@) == match context_token {
                Some(t) => Some(json::JsonView::Text(t)),
                None => None,
            }
            &&& items is Some && json::items_of(items->0).len() == 1
            &&& json::field(item, "type"@) == Some(json::JsonView::Int(1))
            &&& words is Some && json::field(words->0, "text"@) == Some(json::JsonView::Text(content))
        }),
{
    broadcast use json::group_fields;

    reveal_strlit("msg");
    reveal_strlit("base_info");
    reveal_strlit("to_user_id");
    reveal_strlit("client_id");
    reveal_strlit("message_type");
    reveal_strlit("message_state");
    reveal_strlit("item_list");
    reveal_strlit("context_token");
    reveal_strlit("type");
    reveal_strlit("text_item");
    reveal_strlit("text");
    assert("msg"@.len() == 3 && "base_info"@.len() == 9 && "to_user_id"@.len() == 10
        && "client_id"@.len() == 9 && "message_type"@.len() == 12 && "message_state"@.len() == 13
        && "item_list"@.len() == 9 && "context_token"@.len() == 13 && "type"@.len() == 4
        && "text_item"@.len() == 9 && "text"@.len() == 4 && "base_info"@[0] == 'b' && "client_id"@[0] == 'c'
        && "message_state"@[0] == 'm' && "item_list"@[0] == 'i' && "context_token"@[0] == 'c'
        && "type"@[1] == 'y' && "text_item"@[0] == 't' && "text"@[1] == 'e');
}

/// A poll says how far the last one came.
pub proof fn law_poll_says_how_far_it_came(buf: Seq<char>)
    ensures
        json::field(poll_body(buf), "get_updates_buf"@) == Some(json::JsonView::Text(buf)),
{
    broadcast use json::group_fields;

}

/// A request of a bot is posted to its endpoint with its token and its number; one
/// without a token asks for one thing, and carries no token.
pub proof fn law_requests_carry_what_they_should(
    a: WeixinApi,
    endpoint: Seq<char>,
    body: json::JsonView,
    name: Seq<char>,
    value: Seq<char>,
)
    ensures
        ({
            let q = authorized(a, endpoint, body);
            &&& q.method == Method::Post
            &&& q.url == a.base_url@ + seq!['/'] + endpoint
            &&& q.headers.contains(("Authorization"@, "Bearer "@ + a.bot_token@))
            &&& q.headers.contains(("X-WECHAT-UIN"@, a.wechat_uin@))
            &&& q.headers.contains(("AuthorizationType"@, "ilink_bot_token"@))
            &&& q.headers.contains(("Content-Type"@, "application/json"@))
            &&& q.headers.len() == 4
            &&& q.query.len() == 0
            &&& q.body == Some(body)
        }),
        ({
            let q = anonymous(a, endpoint, name, value);
            &&& q.method == Method::Get
            &&& q.url == a.base_url@ + seq!['/'] + endpoint
            &&& q.query == seq![(name, value)]
            &&& q.headers == seq![("iLink-App-ClientVersion"@, "1"@)]
            &&& q.body is None
        }),
{
    reveal_strlit("/");
    assert("/"@ =~= seq!['/']);
    let h = authorized(a, endpoint, body).headers;
    assert(h[0] == ("Content-Type"@, "application/json"@));
    assert(h[1] == ("AuthorizationType"@, "ilink_bot_token"@));
    assert(h[2] == ("Authorization"@, "Bearer "@ + a.bot_token@));
    assert(h[3] == ("X-WECHAT-UIN"@, a.wechat_uin@));
    let q = anonymous(a, endpoint, name, value);
    assert(q.query =~= seq![(name, value)]);
    assert(q.headers =~= seq![("iLink-App-ClientVersion"@, "1"@)]);
}

/// Each request goes to its own endpoint and is about what it says: the status of a QR
/// code by its ticket, a poll from where the last one came to, a message to its user.
pub proof fn law_requests_go_to_their_endpoint(
    a: WeixinApi,
    qrcode: Seq<char>,
    buf: Seq<char>,
    to_user_id: Seq<char>,
    client_id: Seq<char>,
    content: Seq<char>,
    context_token: Option<Seq<char>>,
)
    ensures
        qrcode_request(a).url == a.base_url@ + "/ilink/bot/get_bot_qrcode"@,
        status_request(a, qrcode).url == a.base_url@ + "/ilink/bot/get_qrcode_status"@,
        poll_request(a, buf).url == a.base_url@ + "/ilink/bot/getupdates"@,
        message_request(a, to_user_id, client_id, content, context_token).url == a.base_url@ + "/ilink/bot/sendmessage"@,
        qrcode_request(a).query == seq![("bot_type"@, "3"@)],
        status_request(a, qrcode).query == seq![("qrcode"@, qrcode)],
        qrcode_request(a).method == Method::Get,
        status_request(a, qrcode).method == Method::Get,
        poll_request(a, buf).body == Some(poll_body(buf)),
        poll_request(a, buf).method == Method::Post,
        message_request(a, to_user_id, client_id, content, context_token).body == Some(
            message_body(to_user_id, client_id, content, context_token),
        ),
        message_request(a, to_user_id, client_id, content, context_token).method == Method::Post,
        message_request(a, to_user_id, client_id, content, context_token).headers.contains(
            ("Authorization"@, "Bearer "@ + a.bot_token@),
        ),
{
    reveal_strlit("/");
    reveal_strlit("/ilink/bot/get_bot_qrcode");
    reveal_strlit("ilink/bot/get_bot_qrcode");
    reveal_strlit("/ilink/bot/get_qrcode_status");
    reveal_strlit("ilink/bot/get_qrcode_status");
    reveal_strlit("/ilink/bot/getupdates");
    reveal_strlit("ilink/bot/getupdates");
    reveal_strlit("/ilink/bot/sendmessage");
    reveal_strlit("ilink/bot/sendmessage");
    assert(a.base_url@ + "/"@ + "ilink/bot/get_bot_qrcode"@ =~= a.base_url@ + "/ilink/bot/get_bot_qrcode"@);
    assert(a.base_url@ + "/"@ + "ilink/bot/get_qrcode_status"@ =~= a.base_url@ + "/ilink/bot/get_qrcode_status"@);
    assert(a.base_url@ + "/"@ + "ilink/bot/getupdates"@ =~= a.base_url@ + "/ilink/bot/getupdates"@);
    assert(a.base_url@ + "/"@ + "ilink/bot/sendmessage"@ =~= a.base_url@ + "/ilink/bot/sendmessage"@);
    assert(qrcode_request(a).query =~= seq![("bot_type"@, "3"@)]);
    assert(status_request(a, qrcode).query =~= seq![("qrcode"@, qrcode)]);
    law_requests_carry_what_they_should(
        a,
        "ilink/bot/sendmessage"@,
        message_body(to_user_id, client_id, content, context_token),
        "qrcode"@,
        qrcode,
    );
}

/// The six bits of each character, one behind the other, are the bits of the bytes.
pub proof fn law_base64_holds_the_bytes(b: Seq<u8>)
    requires
        b.len() == 4,
    ensures
        exists|n: Seq<int>| #[trigger]
            n.len() == 6 && {
                &&& forall|i: int|
                    0 <= i < 6 ==> 0 <= #[trigger] n[i] < 64 && base64_standard(b)[i]
                        == "ABCDEFGHIJKLMNOPQRSTUVWXYZabcdefghijklmnopqrstuvwxyz0123456789+/"@[n[i]]
                &&& n[0] * 262144 + n[1] * 4096 + n[2] * 64 + n[3] == b[0] * 65536 + b[1] * 256 + b[2]
                &&& n[4] * 64 + n[5] == b[3] * 16
            },
        base64_standard(b).len() == 8,
        base64_standard(b)[6] == '=',
        base64_standard(b)[7] == '=',
{
    let n: Seq<int> = seq![
        b[0] as int / 4,
        (b[0] % 4) * 16 + b[1] as int / 16,
        (b[1] % 16) * 4 + b[2] as int / 64,
        (b[2] % 64) as int,
        b[3] as int / 4,
        (b[3] % 4) * 16,
    ];
    assert(n.len() == 6);
    assert forall|i: int| 0 <= i < 6 implies 0 <= #[trigger] n[i] < 64 && base64_standard(b)[i]
        == "ABCDEFGHIJKLMNOPQRSTUVWXYZabcdefghijklmnopqrstuvwxyz0123456789+/"@[n[i]] by {
        assert(i == 0 || i == 1 || i == 2 || i == 3 || i == 4 || i == 5);
    }
}

} // verus!
