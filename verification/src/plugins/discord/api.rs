//! Requests to Discord's web interface, and its replies.
use vstd::prelude::*;
use vstd::string::*;

use super::types::AllowedMentions;
use crate::error;
use crate::error::ChannelError;
use crate::json;
use crate::json::{list, object, Json};
use crate::plugins::http;
use crate::plugins::http::{request, HttpRequest, Method};
use crate::text::{cat, cat4};
use crate::types;

verus! {

/// Where Discord's web interface is.
pub const DISCORD_API_BASE: &'static str = "https://discord.com/api/v10";

/// Who the bot is.
#[derive(Debug)]
pub struct DiscordIdentity {
    pub id: String,
    pub display_name: Option<String>,
}

/// The bot, as the platform describes it.
#[derive(Debug)]
pub struct CurrentUser {
    pub id: String,
    pub username: Option<String>,
    pub global_name: Option<String>,
}

/// Access to Discord with the token of a bot.
#[derive(Debug)]
pub struct DiscordApi {
    pub token: String,
}

/// A request with the token of a bot.
pub open spec fn authorized(method: Method, url: Seq<char>, token: Seq<char>) -> http::RequestView {
    http::RequestView {
        method,
        url,
        query: Seq::empty(),
        headers: Seq::empty().push(("Authorization"@, "Bot "@ + token)),
        body: None,
    }
}

/// The content of a message, nobody notified, as a reply where it is one.
pub open spec fn message_body(content: Seq<char>, reply_to: Option<Seq<char>>) -> json::JsonView {
    let plain = json::no_members().text("content"@, content).with(
        "allowed_mentions"@,
        json::no_members().with("parse"@, json::no_items()),
    );
    match reply_to {
        Some(id) => plain.with("message_reference"@, json::no_members().text("message_id"@, id)),
        None => plain,
    }
}

fn mentions_json(mentions: &AllowedMentions) -> (r: Json)
    requires
        mentions.parse@.len() == 0,
    ensures
        r@ == json::no_members().with("parse"@, json::no_items()),
{
    object().with("parse", list())
}

fn send_body(content: &str, reply_to: Option<&str>) -> (r: Json)
    ensures
        r@ == message_body(content@, types::opt_str(reply_to)),
{
    let plain = object().text("content", content).with("allowed_mentions", mentions_json(&AllowedMentions::none()));
    match reply_to {
        Some(id) => plain.with("message_reference", object().text("message_id", id)),
        None => plain,
    }
}

/// The request for the address of the gateway.
pub open spec fn gateway_request(token: Seq<char>) -> http::RequestView {
    authorized(Method::Get, DISCORD_API_BASE@ + "/gateway/bot"@, token)
}

/// The request for the identity of the bot.
pub open spec fn user_request(token: Seq<char>) -> http::RequestView {
    authorized(Method::Get, DISCORD_API_BASE@ + "/users/@me"@, token)
}

/// The request that posts a message.
pub open spec fn create_request(
    token: Seq<char>,
    channel_id: Seq<char>,
    content: Seq<char>,
    reply_to: Option<Seq<char>>,
) -> http::RequestView {
    http::RequestView {
        body: Some(message_body(content, reply_to)),
        ..authorized(Method::Post, DISCORD_API_BASE@ + "/channels/"@ + channel_id + "/messages"@, token)
    }
}

/// The request that edits a message.
pub open spec fn edit_request(
    token: Seq<char>,
    channel_id: Seq<char>,
    message_id: Seq<char>,
    content: Seq<char>,
) -> http::RequestView {
    http::RequestView {
        body: Some(message_body(content, None)),
        ..authorized(Method::Patch, DISCORD_API_BASE@ + "/channels/"@ + channel_id + "/messages/"@ + message_id, token)
    }
}

/// The first of two optional texts that is there.
pub open spec fn first_of(a: Option<Seq<char>>, b: Option<Seq<char>>) -> Option<Seq<char>> {
    if a is Some {
        a
    } else {
        b
    }
}

impl DiscordApi {
    /// Access with a token.
    pub fn new(token: &str) -> (r: Self)
        ensures
            r.token@ == token@,
    {
        DiscordApi { token: token.to_owned() }
    }

    /// What authorizes a request.
    pub fn auth_header(&self) -> (r: String)
        ensures
            r@ == "Bot "@ + self.token@,
    {
        cat("Bot ", self.token.as_str())
    }

    fn authorize(&self, method: Method, url: String) -> (r: HttpRequest)
        ensures
            r@ == authorized(method, url@, self.token@),
    {
        request(method, url).header("Authorization", self.auth_header().as_str())
    }

    /// The request for the address of the gateway.
    pub fn get_gateway_bot(&self) -> (r: HttpRequest)
        ensures
            r@ == gateway_request(self.token@),
    {
        self.authorize(Method::Get, cat(DISCORD_API_BASE, "/gateway/bot"))
    }

    /// The request for the identity of the bot.
    pub fn get_current_user(&self) -> (r: HttpRequest)
        ensures
            r@ == user_request(self.token@),
    {
        self.authorize(Method::Get, cat(DISCORD_API_BASE, "/users/@me"))
    }

    /// The request that posts a message.
    pub fn create_message(&self, channel_id: &str, content: &str, reply_to: Option<&str>) -> (r: HttpRequest)
        ensures
            r@ == create_request(self.token@, channel_id@, content@, types::opt_str(reply_to)),
    {
        self.authorize(Method::Post, cat4(DISCORD_API_BASE, "/channels/", channel_id, "/messages")).json(
            send_body(content, reply_to),
        )
    }

    /// The request that edits a message.
    pub fn edit_message(&self, channel_id: &str, message_id: &str, content: &str) -> (r: HttpRequest)
        ensures
            r@ == edit_request(self.token@, channel_id@, message_id@, content@),
    {
        self.authorize(
            Method::Patch,
            cat(cat4(DISCORD_API_BASE, "/channels/", channel_id, "/messages/").as_str(), message_id),
        ).json(send_body(content, None))
    }
}

/// Who the bot is: under its name for display or that of its account.
pub fn identity_of(user: CurrentUser) -> (r: DiscordIdentity)
    ensures
        r.id@ == user.id@,
        types::opt_text(r.display_name) == first_of(types::opt_text(user.global_name), types::opt_text(user.username)),
{
    let display_name = match user.global_name {
        Some(name) => Some(name),
        None => user.username,
    };
    DiscordIdentity { id: user.id, display_name }
}

/// Checks the reply to the request for the address of the gateway.
pub fn check_gateway_bot(success: bool, status: &str) -> (r: Result<(), ChannelError>)
    ensures
        r is Ok <==> success,
        r matches Err(e) ==> e@ == error::ErrorView::ConnectionFailed("Discord GET /gateway/bot failed: "@ + status@),
{
    if success {
        Ok(())
    } else {
        Err(ChannelError::ConnectionFailed(cat("Discord GET /gateway/bot failed: ", status)))
    }
}

/// Checks the reply to the request for the identity of the bot.
pub fn check_current_user(success: bool, status: &str) -> (r: Result<(), ChannelError>)
    ensures
        r is Ok <==> success,
        r matches Err(e) ==> e@ == error::ErrorView::InvalidConfig("Discord token validation failed: "@ + status@),
{
    if success {
        Ok(())
    } else {
        Err(ChannelError::InvalidConfig(cat("Discord token validation failed: ", status)))
    }
}

/// Checks the reply to the request that posts a message.
pub fn check_create_message(success: bool, status: &str) -> (r: Result<(), ChannelError>)
    ensures
        r is Ok <==> success,
        r matches Err(e) ==> e@ == error::ErrorView::MessageSendFailed("Discord create message failed: "@ + status@),
{
    if success {
        Ok(())
    } else {
        Err(ChannelError::MessageSendFailed(cat("Discord create message failed: ", status)))
    }
}

/// Checks the reply to the request that edits a message.
pub fn check_edit_message(success: bool, status: &str) -> (r: Result<(), ChannelError>)
    ensures
        r is Ok <==> success,
        r matches Err(e) ==> e@ == error::ErrorView::MessageSendFailed("Discord edit message failed: "@ + status@),
{
    if success {
        Ok(())
    } else {
        Err(ChannelError::MessageSendFailed(cat("Discord edit message failed: ", status)))
    }
}

/// No message that goes out notifies anybody.
pub proof fn law_nobody_is_notified(content: Seq<char>, reply_to: Option<Seq<char>>)
    ensures
        json::members_of(message_body(content, reply_to))[1] == (
            "allowed_mentions"@,
            json::no_members().with("parse"@, json::no_items()),
        ),
{
}

/// A message goes out with its text, and refers to the message that it replies to
/// exactly if it is a reply.
pub proof fn law_message_carries_its_text(content: Seq<char>, reply_to: Option<Seq<char>>)
    ensures
        ({
            let body = message_body(content, reply_to);
            let reference = json::field(body, "message_reference"@);
            let mentions = json::field(body, "allowed_mentions"@);
            &&& json::field(body, "content"@) == Some(json::JsonView::Text(content))
            &&& reference is Some <==> reply_to is Some
            &&& reply_to is Some ==> json::field(reference->0, "message_id"@) == Some(json::JsonView::Text(reply_to->0))
            &&& mentions is Some && json::field(mentions->0, "parse"@) == Some(json::JsonView::List(Seq::empty()))
        }),
{
    broadcast use json::group_fields;

    reveal_strlit("content");
    reveal_strlit("allowed_mentions");
    reveal_strlit("message_reference");
    assert("content"@.len() == 7 && "allowed_mentions"@.len() == 16 && "message_reference"@.len() == 17);
}

/// Every request is made with the token of the bot, and with nothing else in its head.
pub proof fn law_requests_carry_the_token(method: Method, url: Seq<char>, token: Seq<char>)
    ensures
        authorized(method, url, token).headers == seq![("Authorization"@, "Bot "@ + token)],
        authorized(method, url, token).method == method,
        authorized(method, url, token).url == url,
        authorized(method, url, token).query.len() == 0,
{
    assert(Seq::empty().push(("Authorization"@, "Bot "@ + token)) =~= seq![("Authorization"@, "Bot "@ + token)]);
}

/// The name for display goes before that of the account.
pub proof fn law_display_name_goes_first(global_name: Option<Seq<char>>, username: Option<Seq<char>>)
    ensures
        global_name is Some ==> first_of(global_name, username) == global_name,
        global_name is None ==> first_of(global_name, username) == username,
{
}

/// A message is posted to its channel, an edit is of the message that it names, and each
/// request is made with the token.
pub proof fn law_requests_go_where_they_should(
    token: Seq<char>,
    channel_id: Seq<char>,
    message_id: Seq<char>,
    content: Seq<char>,
    reply_to: Option<Seq<char>>,
)
    ensures
        ({
            let q = create_request(token, channel_id, content, reply_to);
            &&& q.method == Method::Post
            &&& q.url == "https://discord.com/api/v10/channels/"@ + channel_id + "/messages"@
            &&& q.headers == seq![("Authorization"@, "Bot "@ + token)]
            &&& q.body == Some(message_body(content, reply_to))
        }),
        ({
            let q = edit_request(token, channel_id, message_id, content);
            &&& q.method == Method::Patch
            &&& q.url == "https://discord.com/api/v10/channels/"@ + channel_id + "/messages/"@ + message_id
            &&& q.headers == seq![("Authorization"@, "Bot "@ + token)]
            &&& q.body == Some(message_body(content, None))
        }),
        gateway_request(token).url == "https://discord.com/api/v10/gateway/bot"@,
        gateway_request(token).method == Method::Get,
        gateway_request(token).headers == seq![("Authorization"@, "Bot "@ + token)],
        user_request(token).url == "https://discord.com/api/v10/users/@me"@,
        user_request(token).method == Method::Get,
        user_request(token).headers == seq![("Authorization"@, "Bot "@ + token)],
{
    reveal_strlit("https://discord.com/api/v10");
    reveal_strlit("/channels/");
    reveal_strlit("https://discord.com/api/v10/channels/");
    reveal_strlit("/gateway/bot");
    reveal_strlit("https://discord.com/api/v10/gateway/bot");
    reveal_strlit("/users/@me");
    reveal_strlit("https://discord.com/api/v10/users/@me");
    assert(DISCORD_API_BASE@ + "/channels/"@ =~= "https://discord.com/api/v10/channels/"@);
    assert(DISCORD_API_BASE@ + "/gateway/bot"@ =~= "https://discord.com/api/v10/gateway/bot"@);
    assert(DISCORD_API_BASE@ + "/users/@me"@ =~= "https://discord.com/api/v10/users/@me"@);
    law_requests_carry_the_token(Method::Get, DISCORD_API_BASE@, token);
}

} // verus!
