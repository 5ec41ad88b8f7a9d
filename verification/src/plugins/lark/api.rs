//! Requests to Lark's web interface, and its replies.
use vstd::prelude::*;
use vstd::string::*;

use crate::error;
use crate::error::ChannelError;
use crate::json;
use crate::json::object;
use crate::plugins::http;
use crate::plugins::http::{request, HttpRequest, Method};
use crate::plugins::token;
use crate::plugins::token::{token_lifetime, TokenCache};
use crate::text;
use crate::text::{cat, cat3, i64_text};
use crate::types;

verus! {

/// Where Lark's web interface is.
pub const LARK_OPEN_API_BASE: &'static str = "https://open.feishu.cn/open-apis";

/// Where Lark's connections are asked for.
pub const LARK_BASE: &'static str = "https://open.feishu.cn";

/// The reply to the request for a token.
#[derive(Debug)]
pub struct TenantAccessTokenResponse {
    pub code: i32,
    pub msg: String,
    pub tenant_access_token: Option<String>,
    pub expire: Option<i64>,
}

/// The reply to the request for the bot.
#[derive(Debug)]
pub struct BotInfoResponse {
    pub code: i32,
    pub msg: String,
    pub bot: Option<BotInfoData>,
}

/// Who the bot is.
#[derive(Debug)]
pub struct BotInfoData {
    pub app_name: String,
    pub open_id: String,
}

/// The reply to the request for a connection.
#[derive(Debug)]
pub struct WsEndpointResponse {
    pub code: i32,
    pub msg: String,
    pub data: Option<WsEndpointData>,
}

/// Where to connect, and the seconds between pings where they are configured.
#[derive(Debug)]
pub struct WsEndpointData {
    pub url: String,
    pub ping_interval: Option<u64>,
}

/// The reply to a message that was sent; `data` is the id of the message.
#[derive(Debug)]
pub struct SendMessageResponse {
    pub code: i32,
    pub msg: String,
    pub data: Option<String>,
}

/// The reply to a request without a result.
#[derive(Debug)]
pub struct GenericResponse {
    pub code: i32,
    pub msg: String,
}

/// The words of a code that is not zero.
pub open spec fn code_text(what: Seq<char>, code: i32, msg: Seq<char>) -> Seq<char> {
    what + " error (code="@ + text::int_text(code as int) + "): "@ + msg
}

fn code_message(what: &str, code: i32, msg: &str) -> (r: String)
    ensures
        r@ == code_text(what@, code, msg@),
{
    let head = cat3(what, " error (code=", i64_text(code as i64).as_str());
    cat3(head.as_str(), "): ", msg)
}

/// A request with a token.
pub open spec fn authorized(method: Method, url: Seq<char>, token: Seq<char>) -> http::RequestView {
    http::RequestView {
        method,
        url,
        query: Seq::empty(),
        headers: Seq::empty().push(("Authorization"@, "Bearer "@ + token)),
        body: None,
    }
}

/// The request for a token.
pub open spec fn token_request(app_id: Seq<char>, app_secret: Seq<char>) -> http::RequestView {
    http::RequestView {
        method: Method::Post,
        url: LARK_OPEN_API_BASE@ + "/auth/v3/tenant_access_token/internal"@,
        query: Seq::empty(),
        headers: Seq::empty(),
        body: Some(json::no_members().text("app_id"@, app_id).text("app_secret"@, app_secret)),
    }
}

/// The request for the identity of the bot.
pub open spec fn bot_request(token: Seq<char>) -> http::RequestView {
    authorized(Method::Get, LARK_OPEN_API_BASE@ + "/bot/v3/info"@, token)
}

/// The request for a connection.
pub open spec fn endpoint_request(app_id: Seq<char>, app_secret: Seq<char>) -> http::RequestView {
    http::RequestView {
        method: Method::Post,
        url: LARK_BASE@ + "/callback/ws/endpoint"@,
        query: Seq::empty(),
        headers: Seq::empty().push(("locale"@, "zh"@)),
        body: Some(json::no_members().text("AppID"@, app_id).text("AppSecret"@, app_secret)),
    }
}

/// The request that sends a card to a chat.
pub open spec fn send_request(token: Seq<char>, chat_id: Seq<char>, card: Seq<char>) -> http::RequestView {
    http::RequestView {
        body: Some(
            json::no_members().text("receive_id"@, chat_id).text("msg_type"@, "interactive"@).text("content"@, card),
        ),
        ..authorized(
            Method::Post,
            LARK_OPEN_API_BASE@ + "/im/v1/messages?receive_id_type=chat_id"@,
            token,
        )
    }
}

/// The request that puts another card in the place of one.
pub open spec fn update_request(token: Seq<char>, message_id: Seq<char>, card: Seq<char>) -> http::RequestView {
    http::RequestView {
        body: Some(json::no_members().text("content"@, card)),
        ..authorized(Method::Patch, LARK_OPEN_API_BASE@ + "/im/v1/messages/"@ + message_id, token)
    }
}

fn authorize(method: Method, url: String, token: &str) -> (r: HttpRequest)
    ensures
        r@ == authorized(method, url@, token@),
{
    request(method, url).header("Authorization", cat("Bearer ", token).as_str())
}

/// Access to Lark with the id and the secret of an application.
#[derive(Debug)]
pub struct LarkApi {
    pub app_id: String,
    pub app_secret: String,
}

impl LarkApi {
    /// Access with an id and a secret.
    pub fn new(app_id: &str, app_secret: &str) -> (r: Self)
        ensures
            r.app_id@ == app_id@,
            r.app_secret@ == app_secret@,
    {
        LarkApi { app_id: app_id.to_owned(), app_secret: app_secret.to_owned() }
    }

    /// The request for a token.
    pub fn refresh_token(&self) -> (r: HttpRequest)
        ensures
            r@ == token_request(self.app_id@, self.app_secret@),
    {
        request(Method::Post, cat(LARK_OPEN_API_BASE, "/auth/v3/tenant_access_token/internal")).json(
            object().text("app_id", self.app_id.as_str()).text("app_secret", self.app_secret.as_str()),
        )
    }

    /// The request for the identity of the bot.
    pub fn get_bot_info(&self, token: &str) -> (r: HttpRequest)
        ensures
            r@ == bot_request(token@),
    {
        authorize(Method::Get, cat(LARK_OPEN_API_BASE, "/bot/v3/info"), token)
    }

    /// The request for a connection; it carries the id and the secret instead of
    /// a token.
    pub fn get_ws_endpoint(&self) -> (r: HttpRequest)
        ensures
            r@ == endpoint_request(self.app_id@, self.app_secret@),
    {
        request(Method::Post, cat(LARK_BASE, "/callback/ws/endpoint")).header("locale", "zh").json(
            object().text("AppID", self.app_id.as_str()).text("AppSecret", self.app_secret.as_str()),
        )
    }

    /// The request that sends a card to a chat.
    pub fn send_card(&self, token: &str, chat_id: &str, card: &str) -> (r: HttpRequest)
        ensures
            r@ == send_request(token@, chat_id@, card@),
    {
        authorize(Method::Post, cat(LARK_OPEN_API_BASE, "/im/v1/messages?receive_id_type=chat_id"), token).json(
            object().text("receive_id", chat_id).text("msg_type", "interactive").text("content", card),
        )
    }

    /// The request that puts another card in the place of one.
    pub fn update_card(&self, token: &str, message_id: &str, card: &str) -> (r: HttpRequest)
        ensures
            r@ == update_request(token@, message_id@, card@),
    {
        authorize(Method::Patch, cat3(LARK_OPEN_API_BASE, "/im/v1/messages/", message_id), token).json(
            object().text("content", card),
        )
    }
}

/// What is wrong with a reply to the request for a token, if anything.
pub open spec fn token_fault(resp: TenantAccessTokenResponse) -> Option<Seq<char>> {
    if resp.code != 0 {
        Some(code_text("Lark token"@, resp.code, resp.msg@))
    } else if resp.tenant_access_token is None {
        Some("Lark token response missing token"@)
    } else {
        None
    }
}

/// The token that a reply gives, at the time of its arrival.
pub fn token_of(resp: TenantAccessTokenResponse, now: u64) -> (r: Result<TokenCache, ChannelError>)
    ensures
        match r {
            Ok(t) => {
                &&& token_fault(resp) is None
                &&& Some(t.token@) == types::opt_text(resp.tenant_access_token)
                &&& t.acquired_at == now
                &&& t.expires_in == token::lifetime(resp.expire)
            },
            Err(e) => token_fault(resp) is Some && e@ == error::ErrorView::ConnectionFailed(token_fault(resp)->0),
        },
{
    if resp.code != 0 {
        return Err(ChannelError::ConnectionFailed(code_message("Lark token", resp.code, resp.msg.as_str())));
    }
    match resp.tenant_access_token {
        Some(t) => Ok(TokenCache { token: t, acquired_at: now, expires_in: token_lifetime(resp.expire) }),
        None => Err(ChannelError::ConnectionFailed("Lark token response missing token".to_owned())),
    }
}

/// What is wrong with a reply to the request for the bot, if anything.
pub open spec fn bot_fault(resp: BotInfoResponse) -> Option<error::ErrorView> {
    if resp.code != 0 {
        Some(error::ErrorView::ConnectionFailed(code_text("Lark bot info"@, resp.code, resp.msg@)))
    } else if resp.bot is None {
        Some(error::ErrorView::PlatformApi("Lark bot info returned no data"@))
    } else {
        None
    }
}

/// The bot that a reply names.
pub fn bot_of(resp: BotInfoResponse) -> (r: Result<BotInfoData, ChannelError>)
    ensures
        match r {
            Ok(b) => bot_fault(resp) is None && resp.bot == Some(b),
            Err(e) => bot_fault(resp) == Some(e@),
        },
{
    if resp.code != 0 {
        return Err(ChannelError::ConnectionFailed(code_message("Lark bot info", resp.code, resp.msg.as_str())));
    }
    match resp.bot {
        Some(b) => Ok(b),
        None => Err(ChannelError::PlatformApi("Lark bot info returned no data".to_owned())),
    }
}

/// What is wrong with a reply to the request for a connection, if anything.
pub open spec fn endpoint_fault(resp: WsEndpointResponse) -> Option<Seq<char>> {
    if resp.code != 0 {
        Some(code_text("Lark WS endpoint"@, resp.code, resp.msg@))
    } else if resp.data is None {
        Some("Lark WS endpoint returned no URL"@)
    } else {
        None
    }
}

/// Where to connect, as a reply gives it.
pub fn endpoint_of(resp: WsEndpointResponse) -> (r: Result<WsEndpointData, ChannelError>)
    ensures
        match r {
            Ok(d) => endpoint_fault(resp) is None && resp.data == Some(d),
            Err(e) => endpoint_fault(resp) is Some && e@ == error::ErrorView::ConnectionFailed(endpoint_fault(resp)->0),
        },
{
    if resp.code != 0 {
        return Err(ChannelError::ConnectionFailed(code_message("Lark WS endpoint", resp.code, resp.msg.as_str())));
    }
    match resp.data {
        Some(d) => Ok(d),
        None => Err(ChannelError::ConnectionFailed("Lark WS endpoint returned no URL".to_owned())),
    }
}

/// What is wrong with a reply to a message that was sent, if anything.
pub open spec fn send_fault(resp: SendMessageResponse) -> Option<Seq<char>> {
    if resp.code != 0 {
        Some(code_text("Lark send card"@, resp.code, resp.msg@))
    } else if resp.data is None {
        Some("Lark send card returned no data"@)
    } else {
        None
    }
}

/// The id of a message that was sent.
pub fn sent_id(resp: SendMessageResponse) -> (r: Result<String, ChannelError>)
    ensures
        match r {
            Ok(id) => send_fault(resp) is None && resp.data == Some(id),
            Err(e) => send_fault(resp) is Some && e@ == error::ErrorView::MessageSendFailed(send_fault(resp)->0),
        },
{
    if resp.code != 0 {
        return Err(ChannelError::MessageSendFailed(code_message("Lark send card", resp.code, resp.msg.as_str())));
    }
    match resp.data {
        Some(id) => Ok(id),
        None => Err(ChannelError::MessageSendFailed("Lark send card returned no data".to_owned())),
    }
}

/// Checks the reply to the request that puts another card in the place of one.
pub fn check_update(resp: GenericResponse) -> (r: Result<(), ChannelError>)
    ensures
        r is Ok <==> resp.code == 0,
        r matches Err(e) ==> e@ == error::ErrorView::MessageSendFailed(
            code_text("Lark update card"@, resp.code, resp.msg@),
        ),
{
    if resp.code == 0 {
        Ok(())
    } else {
        Err(ChannelError::MessageSendFailed(code_message("Lark update card", resp.code, resp.msg.as_str())))
    }
}

// ---------------------------------------------------------------------------
// Laws
// ---------------------------------------------------------------------------

/// A card is sent to the chat that it is for, with the token, as an interactive
/// message whose content it is.
pub proof fn law_card_goes_to_its_chat(token: Seq<char>, chat_id: Seq<char>, card: Seq<char>)
    ensures
        ({
            let q = send_request(token, chat_id, card);
            &&& q.method == Method::Post
            &&& q.url == "https://open.feishu.cn/open-apis/im/v1/messages?receive_id_type=chat_id"@
            &&& q.headers == seq![("Authorization"@, "Bearer "@ + token)]
            &&& q.body is Some
            &&& json::field(q.body->0, "receive_id"@) == Some(json::JsonView::Text(chat_id))
            &&& json::field(q.body->0, "msg_type"@) == Some(json::JsonView::Text("interactive"@))
            &&& json::field(q.body->0, "content"@) == Some(json::JsonView::Text(card))
        }),
{
    broadcast use json::group_fields;

    reveal_strlit("receive_id");
    reveal_strlit("msg_type");
    reveal_strlit("content");
    assert("receive_id"@.len() == 10 && "msg_type"@.len() == 8 && "content"@.len() == 7);
    reveal_strlit("https://open.feishu.cn/open-apis");
    reveal_strlit("/im/v1/messages?receive_id_type=chat_id");
    reveal_strlit("https://open.feishu.cn/open-apis/im/v1/messages?receive_id_type=chat_id");
    assert(LARK_OPEN_API_BASE@ + "/im/v1/messages?receive_id_type=chat_id"@
        =~= "https://open.feishu.cn/open-apis/im/v1/messages?receive_id_type=chat_id"@);
    assert(Seq::empty().push(("locale"@, "zh"@)) =~= seq![("locale"@, "zh"@)]);
    assert(Seq::empty().push(("Authorization"@, "Bearer "@ + token)) =~= seq![("Authorization"@, "Bearer "@ + token)]);
}

/// An edit puts the new card in the place of the message that is edited.
pub proof fn law_edit_is_of_the_message(token: Seq<char>, message_id: Seq<char>, card: Seq<char>)
    ensures
        ({
            let q = update_request(token, message_id, card);
            &&& q.method == Method::Patch
            &&& q.url == "https://open.feishu.cn/open-apis/im/v1/messages/"@ + message_id
            &&& q.headers == seq![("Authorization"@, "Bearer "@ + token)]
            &&& q.body is Some
            &&& json::field(q.body->0, "content"@) == Some(json::JsonView::Text(card))
        }),
{
    broadcast use json::group_fields;

    reveal_strlit("https://open.feishu.cn/open-apis");
    reveal_strlit("/im/v1/messages/");
    reveal_strlit("https://open.feishu.cn/open-apis/im/v1/messages/");
    assert(LARK_OPEN_API_BASE@ + "/im/v1/messages/"@ =~= "https://open.feishu.cn/open-apis/im/v1/messages/"@);
    assert(Seq::empty().push(("Authorization"@, "Bearer "@ + token)) =~= seq![("Authorization"@, "Bearer "@ + token)]);
}

/// A reply is at fault exactly if it has a code other than zero or lacks what was asked
/// for.
pub proof fn law_only_errors_are_faults(
    token: TenantAccessTokenResponse,
    bot: BotInfoResponse,
    endpoint: WsEndpointResponse,
    sent: SendMessageResponse,
)
    ensures
        token_fault(token) is None <==> token.code == 0 && token.tenant_access_token is Some,
        bot_fault(bot) is None <==> bot.code == 0 && bot.bot is Some,
        endpoint_fault(endpoint) is None <==> endpoint.code == 0 && endpoint.data is Some,
        send_fault(sent) is None <==> sent.code == 0 && sent.data is Some,
        token.code != 0 ==> token_fault(token) == Some(code_text("Lark token"@, token.code, token.msg@)),
        bot.code != 0 ==> bot_fault(bot) == Some(
            error::ErrorView::ConnectionFailed(code_text("Lark bot info"@, bot.code, bot.msg@)),
        ),
        endpoint.code != 0 ==> endpoint_fault(endpoint) == Some(
            code_text("Lark WS endpoint"@, endpoint.code, endpoint.msg@),
        ),
        sent.code != 0 ==> send_fault(sent) == Some(code_text("Lark send card"@, sent.code, sent.msg@)),
        token.code == 0 && token.tenant_access_token is None ==> token_fault(token) == Some(
            "Lark token response missing token"@,
        ),
        bot.code == 0 && bot.bot is None ==> bot_fault(bot) == Some(
            error::ErrorView::PlatformApi("Lark bot info returned no data"@),
        ),
        endpoint.code == 0 && endpoint.data is None ==> endpoint_fault(endpoint) == Some(
            "Lark WS endpoint returned no URL"@,
        ),
        sent.code == 0 && sent.data is None ==> send_fault(sent) == Some("Lark send card returned no data"@),
{
}

/// An error of the platform is told with its code and its words.
pub proof fn law_errors_are_told(what: Seq<char>, code: i32, msg: Seq<char>)
    ensures
        text::has_text(code_text(what, code, msg), "code="@ + text::int_text(code as int)),
        text::has_text(code_text(what, code, msg), msg),
        text::begins_with(code_text(what, code, msg), what),
{
    reveal_strlit(" error (code=");
    reveal_strlit("code=");
    reveal_strlit("): ");
    let t = code_text(what, code, msg);
    let n = "code="@ + text::int_text(code as int);
    let at: int = what.len() as int + 8;
    assert(t.subrange(at, at + n.len() as int) =~= n);
    assert(text::occurs_at(t, n, at));
    let tail: int = t.len() - msg.len();
    assert(t.subrange(tail, tail + msg.len() as int) =~= msg);
    assert(text::occurs_at(t, msg, tail));
    assert(t.subrange(0, what.len() as int) =~= what);
}

/// A token and a connection are asked for with the id and the secret of the application,
/// the identity of the bot with the token.
pub proof fn law_access_is_asked_for(app_id: Seq<char>, app_secret: Seq<char>, token: Seq<char>)
    ensures
        ({
            let q = token_request(app_id, app_secret);
            &&& q.url == "https://open.feishu.cn/open-apis/auth/v3/tenant_access_token/internal"@
            &&& q.method == Method::Post
            &&& json::field(q.body->0, "app_id"@) == Some(json::JsonView::Text(app_id))
            &&& json::field(q.body->0, "app_secret"@) == Some(json::JsonView::Text(app_secret))
        }),
        ({
            let q = endpoint_request(app_id, app_secret);
            &&& q.url == "https://open.feishu.cn/callback/ws/endpoint"@
            &&& q.headers == seq![("locale"@, "zh"@)]
            &&& q.method == Method::Post
            &&& json::field(q.body->0, "AppID"@) == Some(json::JsonView::Text(app_id))
            &&& json::field(q.body->0, "AppSecret"@) == Some(json::JsonView::Text(app_secret))
        }),
        bot_request(token).url == "https://open.feishu.cn/open-apis/bot/v3/info"@,
        bot_request(token).method == Method::Get,
        bot_request(token).headers == seq![("Authorization"@, "Bearer "@ + token)],
{
    broadcast use json::group_fields;

    reveal_strlit("app_id");
    reveal_strlit("app_secret");
    reveal_strlit("AppID");
    reveal_strlit("AppSecret");
    assert("app_id"@.len() == 6 && "app_secret"@.len() == 10 && "AppID"@.len() == 5 && "AppSecret"@.len() == 9);
    reveal_strlit("https://open.feishu.cn/open-apis");
    reveal_strlit("https://open.feishu.cn");
    reveal_strlit("/auth/v3/tenant_access_token/internal");
    reveal_strlit("https://open.feishu.cn/open-apis/auth/v3/tenant_access_token/internal");
    reveal_strlit("/callback/ws/endpoint");
    reveal_strlit("https://open.feishu.cn/callback/ws/endpoint");
    reveal_strlit("/bot/v3/info");
    reveal_strlit("https://open.feishu.cn/open-apis/bot/v3/info");
    assert(LARK_OPEN_API_BASE@ + "/auth/v3/tenant_access_token/internal"@
        =~= "https://open.feishu.cn/open-apis/auth/v3/tenant_access_token/internal"@);
    assert(LARK_BASE@ + "/callback/ws/endpoint"@ =~= "https://open.feishu.cn/callback/ws/endpoint"@);
    assert(LARK_OPEN_API_BASE@ + "/bot/v3/info"@ =~= "https://open.feishu.cn/open-apis/bot/v3/info"@);
    assert(Seq::empty().push(("Authorization"@, "Bearer "@ + token)) =~= seq![("Authorization"@, "Bearer "@ + token)]);
}

} // verus!
