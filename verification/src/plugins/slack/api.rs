//! Requests to Slack's web interface, and its replies.
use vstd::prelude::*;
use vstd::string::*;

use crate::error;
use crate::error::ChannelError;
use crate::json;
use crate::json::object;
use crate::plugins::http;
use crate::plugins::http::{request, HttpRequest, Method};
use crate::text;
use crate::text::{cat, parse_u64, trim};
use crate::types;

verus! {

/// Where Slack's web interface is.
pub const SLACK_API_BASE: &'static str = "https://slack.com/api";

/// The longest wait that is honoured, in seconds.
pub const MAX_RETRY_AFTER: u64 = 30;

/// Who the bot is.
#[derive(Debug)]
pub struct SlackIdentity {
    pub user_id: String,
    pub user: Option<String>,
}

/// The reply to `auth.test`.
#[derive(Debug)]
pub struct AuthTestResponse {
    pub ok: bool,
    pub error: Option<String>,
    pub user: Option<String>,
    pub user_id: Option<String>,
}

/// The reply to `apps.connections.open`.
#[derive(Debug)]
pub struct OpenConnectionResponse {
    pub ok: bool,
    pub url: Option<String>,
    pub error: Option<String>,
}

/// The reply to `chat.postMessage`.
#[derive(Debug)]
pub struct PostMessageResponse {
    pub ok: bool,
    pub ts: Option<String>,
    pub error: Option<String>,
}

/// The reply to `chat.update`.
#[derive(Debug)]
pub struct UpdateMessageResponse {
    pub ok: bool,
    pub error: Option<String>,
}

/// The seconds to wait, as a header gives them.
pub open spec fn wait_of(header: Option<Seq<char>>) -> Option<nat> {
    match header {
        Some(s) => match text::unsigned_decimal(text::trimmed(s)) {
            Some(n) => if n > u64::MAX {
                None
            } else if n > MAX_RETRY_AFTER {
                Some(MAX_RETRY_AFTER as nat)
            } else {
                Some(n)
            },
            None => None,
        },
        None => None,
    }
}

/// The seconds to wait, as a header gives them.
pub fn parse_retry_after(header: Option<&str>) -> (r: Option<u64>)
    ensures
        match r {
            Some(n) => wait_of(types::opt_str(header)) == Some(n as nat),
            None => wait_of(types::opt_str(header)) is None,
        },
{
    match header {
        Some(s) => match parse_u64(trim(s).as_str()) {
            Some(n) => if n > MAX_RETRY_AFTER {
                Some(MAX_RETRY_AFTER)
            } else {
                Some(n)
            },
            None => None,
        },
        None => None,
    }
}

/// The seconds before a request that came too soon is sent again: what the
/// header says, or one.
pub fn retry_delay(header: Option<&str>) -> (r: u64)
    ensures
        r == match wait_of(types::opt_str(header)) {
            Some(n) => n,
            None => 1,
        },
{
    match parse_retry_after(header) {
        Some(n) => n,
        None => 1,
    }
}

/// What Slack says went wrong.
pub open spec fn reason(e: Option<String>) -> Seq<char> {
    match e {
        Some(s) => s@,
        None => "unknown"@,
    }
}

fn reason_of(e: Option<String>) -> (r: String)
    ensures
        r@ == reason(e),
{
    match e {
        Some(s) => s,
        None => "unknown".to_owned(),
    }
}

/// A request with a token.
pub open spec fn authorized(url: Seq<char>, token: Seq<char>) -> http::RequestView {
    http::RequestView {
        method: Method::Post,
        url,
        query: Seq::empty(),
        headers: Seq::empty().push(("Authorization"@, "Bearer "@ + token)),
        body: None,
    }
}

fn authorize(url: String, token: &str) -> (r: HttpRequest)
    ensures
        r@ == authorized(url@, token@),
{
    request(Method::Post, url).header("Authorization", cat("Bearer ", token).as_str())
}

/// The body of a new message.
pub open spec fn post_body(channel: Seq<char>, content: Seq<char>, thread_ts: Option<Seq<char>>) -> json::JsonView {
    json::no_members().text("channel"@, channel).text("text"@, content).opt_text("thread_ts"@, thread_ts)
}

/// The body of an edited message.
pub open spec fn update_body(channel: Seq<char>, ts: Seq<char>, content: Seq<char>) -> json::JsonView {
    json::no_members().text("channel"@, channel).text("ts"@, ts).text("text"@, content)
}

/// The request for the identity of a bot.
pub open spec fn auth_request(bot_token: Seq<char>) -> http::RequestView {
    authorized(SLACK_API_BASE@ + "/auth.test"@, bot_token)
}

/// The request for the address of a socket.
pub open spec fn open_request(app_token: Seq<char>) -> http::RequestView {
    authorized(SLACK_API_BASE@ + "/apps.connections.open"@, app_token)
}

/// The request that posts a message.
pub open spec fn post_request(
    bot_token: Seq<char>,
    channel: Seq<char>,
    content: Seq<char>,
    thread_ts: Option<Seq<char>>,
) -> http::RequestView {
    http::RequestView {
        body: Some(post_body(channel, content, thread_ts)),
        ..authorized(SLACK_API_BASE@ + "/chat.postMessage"@, bot_token)
    }
}

/// The request that edits a message.
pub open spec fn update_request(
    bot_token: Seq<char>,
    channel: Seq<char>,
    ts: Seq<char>,
    content: Seq<char>,
) -> http::RequestView {
    http::RequestView {
        body: Some(update_body(channel, ts, content)),
        ..authorized(SLACK_API_BASE@ + "/chat.update"@, bot_token)
    }
}

/// Access to Slack: the token of the bot, and the token of the application,
/// which only opens sockets.
#[derive(Debug)]
pub struct SlackApi {
    pub bot_token: String,
    pub app_token: String,
}

impl SlackApi {
    /// Access with two tokens.
    pub fn new(bot_token: &str, app_token: &str) -> (r: Self)
        ensures
            r.bot_token@ == bot_token@,
            r.app_token@ == app_token@,
    {
        SlackApi { bot_token: bot_token.to_owned(), app_token: app_token.to_owned() }
    }

    /// The request for the identity of the bot.
    pub fn auth_test(&self) -> (r: HttpRequest)
        ensures
            r@ == auth_request(self.bot_token@),
    {
        authorize(cat(SLACK_API_BASE, "/auth.test"), self.bot_token.as_str())
    }

    /// The request for the address of a socket.
    pub fn open_connection(&self) -> (r: HttpRequest)
        ensures
            r@ == open_request(self.app_token@),
    {
        authorize(cat(SLACK_API_BASE, "/apps.connections.open"), self.app_token.as_str())
    }

    /// The request that posts a message.
    pub fn post_message(&self, channel: &str, content: &str, thread_ts: Option<&str>) -> (r: HttpRequest)
        ensures
            r@ == post_request(self.bot_token@, channel@, content@, types::opt_str(thread_ts)),
    {
        authorize(cat(SLACK_API_BASE, "/chat.postMessage"), self.bot_token.as_str()).json(
            object().text("channel", channel).text("text", content).opt_text("thread_ts", thread_ts),
        )
    }

    /// The request that edits a message.
    pub fn update_message(&self, channel: &str, ts: &str, content: &str) -> (r: HttpRequest)
        ensures
            r@ == update_request(self.bot_token@, channel@, ts@, content@),
    {
        authorize(cat(SLACK_API_BASE, "/chat.update"), self.bot_token.as_str()).json(
            object().text("channel", channel).text("ts", ts).text("text", content),
        )
    }
}

/// The identity that a reply to `auth.test` gives.
pub fn identity_of(resp: AuthTestResponse) -> (r: Result<SlackIdentity, ChannelError>)
    ensures
        match r {
            Ok(id) => {
                &&& resp.ok
                &&& id.user_id@ == types::text_or_empty(types::opt_text(resp.user_id))
                &&& types::opt_text(id.user) == types::opt_text(resp.user)
            },
            Err(e) => !resp.ok && e@ == error::ErrorView::InvalidConfig("Slack auth.test error: "@ + reason(resp.error)),
        },
{
    if !resp.ok {
        return Err(
            ChannelError::InvalidConfig(cat("Slack auth.test error: ", reason_of(resp.error).as_str())),
        );
    }
    Ok(SlackIdentity { user_id: types::copy_or_empty(&resp.user_id), user: resp.user })
}

/// What is wrong with a reply to `apps.connections.open`, if anything.
pub open spec fn open_fault(resp: OpenConnectionResponse) -> Option<Seq<char>> {
    if !resp.ok {
        Some("Slack apps.connections.open error: "@ + reason(resp.error))
    } else if resp.url is None {
        Some("Slack apps.connections.open returned no url"@)
    } else {
        None
    }
}

/// The address of a socket that a reply gives.
pub fn socket_url(resp: OpenConnectionResponse) -> (r: Result<String, ChannelError>)
    ensures
        match r {
            Ok(url) => open_fault(resp) is None && resp.url == Some(url),
            Err(e) => open_fault(resp) is Some && e@ == error::ErrorView::ConnectionFailed(open_fault(resp)->0),
        },
{
    if !resp.ok {
        return Err(
            ChannelError::ConnectionFailed(
                cat("Slack apps.connections.open error: ", reason_of(resp.error).as_str()),
            ),
        );
    }
    match resp.url {
        Some(url) => Ok(url),
        None => Err(ChannelError::ConnectionFailed("Slack apps.connections.open returned no url".to_owned())),
    }
}

/// What is wrong with a reply to `chat.postMessage`, if anything.
pub open spec fn post_fault(resp: PostMessageResponse) -> Option<Seq<char>> {
    if !resp.ok {
        Some("Slack chat.postMessage error: "@ + reason(resp.error))
    } else if resp.ts is None {
        Some("Slack chat.postMessage returned no ts"@)
    } else {
        None
    }
}

/// The id of a message that was posted.
pub fn posted_ts(resp: PostMessageResponse) -> (r: Result<String, ChannelError>)
    ensures
        match r {
            Ok(ts) => post_fault(resp) is None && resp.ts == Some(ts),
            Err(e) => post_fault(resp) is Some && e@ == error::ErrorView::MessageSendFailed(post_fault(resp)->0),
        },
{
    if !resp.ok {
        return Err(
            ChannelError::MessageSendFailed(cat("Slack chat.postMessage error: ", reason_of(resp.error).as_str())),
        );
    }
    match resp.ts {
        Some(ts) => Ok(ts),
        None => Err(ChannelError::MessageSendFailed("Slack chat.postMessage returned no ts".to_owned())),
    }
}

/// Checks the reply to `chat.update`.
pub fn check_update(resp: UpdateMessageResponse) -> (r: Result<(), ChannelError>)
    ensures
        r is Ok <==> resp.ok,
        r matches Err(e) ==> e@ == error::ErrorView::MessageSendFailed(
            "Slack chat.update error: "@ + reason(resp.error),
        ),
{
    if resp.ok {
        Ok(())
    } else {
        Err(ChannelError::MessageSendFailed(cat("Slack chat.update error: ", reason_of(resp.error).as_str())))
    }
}

/// No wait is longer than the bound.
pub proof fn law_wait_is_bounded(header: Option<Seq<char>>)
    ensures
        wait_of(header) matches Some(n) ==> n <= MAX_RETRY_AFTER,
{
}

/// A message is posted to its channel with its text, and into a thread exactly if it
/// belongs to one.
pub proof fn law_post_goes_to_its_channel(channel: Seq<char>, content: Seq<char>, thread_ts: Option<Seq<char>>)
    ensures
        ({
            let body = post_body(channel, content, thread_ts);
            &&& json::field(body, "channel"@) == Some(json::JsonView::Text(channel))
            &&& json::field(body, "text"@) == Some(json::JsonView::Text(content))
            &&& json::field(body, "thread_ts"@) == match thread_ts {
                Some(t) => Some(json::JsonView::Text(t)),
                None => None,
            }
        }),
{
    broadcast use json::group_fields;

    reveal_strlit("channel");
    reveal_strlit("text");
    reveal_strlit("thread_ts");
    assert("channel"@.len() == 7 && "text"@.len() == 4 && "thread_ts"@.len() == 9);
}

/// An edit is of the message of that stamp in that channel, and gives it the new text.
pub proof fn law_edit_is_of_the_message(channel: Seq<char>, ts: Seq<char>, content: Seq<char>)
    ensures
        ({
            let body = update_body(channel, ts, content);
            &&& json::field(body, "channel"@) == Some(json::JsonView::Text(channel))
            &&& json::field(body, "ts"@) == Some(json::JsonView::Text(ts))
            &&& json::field(body, "text"@) == Some(json::JsonView::Text(content))
        }),
{
    broadcast use json::group_fields;

    reveal_strlit("channel");
    reveal_strlit("text");
    reveal_strlit("ts");
    assert("channel"@.len() == 7 && "text"@.len() == 4 && "ts"@.len() == 2);
}

/// Every request is posted with the token of its bearer, and with nothing else in its
/// head.
pub proof fn law_requests_carry_the_token(url: Seq<char>, token: Seq<char>)
    ensures
        authorized(url, token).headers == seq![("Authorization"@, "Bearer "@ + token)],
        authorized(url, token).method == Method::Post,
        authorized(url, token).url == url,
        authorized(url, token).query.len() == 0,
{
    assert(Seq::empty().push(("Authorization"@, "Bearer "@ + token)) =~= seq![("Authorization"@, "Bearer "@ + token)]);
}

/// A reply is at fault exactly if it is not ok or lacks what was asked for, and the
/// fault names the reason that the reply gives.
pub proof fn law_only_errors_are_faults(opened: OpenConnectionResponse, posted: PostMessageResponse)
    ensures
        open_fault(opened) is None <==> opened.ok && opened.url is Some,
        post_fault(posted) is None <==> posted.ok && posted.ts is Some,
        !opened.ok && opened.error is Some ==> text::has_text(open_fault(opened)->0, opened.error->0@),
        !posted.ok && posted.error is Some ==> text::has_text(post_fault(posted)->0, posted.error->0@),
        !opened.ok && opened.error is Some ==> open_fault(opened) == Some(
            "Slack apps.connections.open error: "@ + opened.error->0@,
        ),
        opened.ok && opened.url is None ==> open_fault(opened) == Some("Slack apps.connections.open returned no url"@),
        !posted.ok && posted.error is Some ==> post_fault(posted) == Some(
            "Slack chat.postMessage error: "@ + posted.error->0@,
        ),
        posted.ok && posted.ts is None ==> post_fault(posted) == Some("Slack chat.postMessage returned no ts"@),
        reason(None) == "unknown"@,
{
    if !opened.ok && opened.error is Some {
        let t = open_fault(opened)->0;
        let e = opened.error->0@;
        let at: int = t.len() - e.len();
        assert(t.subrange(at, at + e.len() as int) =~= e);
        assert(text::occurs_at(t, e, at));
    }
    if !posted.ok && posted.error is Some {
        let t = post_fault(posted)->0;
        let e = posted.error->0@;
        let at: int = t.len() - e.len();
        assert(t.subrange(at, at + e.len() as int) =~= e);
        assert(text::occurs_at(t, e, at));
    }
}

/// A header of so many seconds is honoured up to the bound.
pub proof fn law_wait_is_what_the_header_says(n: nat)
    requires
        n <= u64::MAX,
    ensures
        wait_of(Some(text::nat_text(n))) == Some(
            if n <= 30 {
                n
            } else {
                30
            },
        ),
        wait_of(None) is None,
{
    text::law_decimal_is_read_back(n);
    let t = text::nat_text(n);
    assert(text::is_digit(t[0]) && text::is_digit(t[t.len() - 1]));
    let none = Seq::<char>::empty();
    text::law_trimming_takes_the_space_off(none, t, none);
    assert(none + t + none =~= t);
}

/// Each request goes to its own method, with the token that it is made with, and carries
/// what it is about.
pub proof fn law_requests_go_to_their_method(
    token: Seq<char>,
    channel: Seq<char>,
    ts: Seq<char>,
    content: Seq<char>,
    other: Option<Seq<char>>,
)
    ensures
        auth_request(token).url == "https://slack.com/api/auth.test"@,
        auth_request(token).headers == seq![("Authorization"@, "Bearer "@ + token)],
        auth_request(token).method == Method::Post,
        open_request(token).url == "https://slack.com/api/apps.connections.open"@,
        open_request(token).headers == seq![("Authorization"@, "Bearer "@ + token)],
        open_request(token).method == Method::Post,
        post_request(token, channel, content, other).url == "https://slack.com/api/chat.postMessage"@,
        post_request(token, channel, content, other).headers == seq![("Authorization"@, "Bearer "@ + token)],
        post_request(token, channel, content, other).method == Method::Post,
        update_request(token, channel, ts, content).url == "https://slack.com/api/chat.update"@,
        update_request(token, channel, ts, content).headers == seq![("Authorization"@, "Bearer "@ + token)],
        update_request(token, channel, ts, content).method == Method::Post,
        auth_request(token).body is None,
        open_request(token).body is None,
        post_request(token, channel, content, other).body == Some(post_body(channel, content, other)),
        update_request(token, channel, ts, content).body == Some(update_body(channel, ts, content)),
{
    reveal_strlit("https://slack.com/api");
    reveal_strlit("/auth.test");
    reveal_strlit("https://slack.com/api/auth.test");
    assert(SLACK_API_BASE@ + "/auth.test"@ =~= "https://slack.com/api/auth.test"@);
    reveal_strlit("/apps.connections.open");
    reveal_strlit("https://slack.com/api/apps.connections.open");
    assert(SLACK_API_BASE@ + "/apps.connections.open"@ =~= "https://slack.com/api/apps.connections.open"@);
    reveal_strlit("/chat.postMessage");
    reveal_strlit("https://slack.com/api/chat.postMessage");
    assert(SLACK_API_BASE@ + "/chat.postMessage"@ =~= "https://slack.com/api/chat.postMessage"@);
    reveal_strlit("/chat.update");
    reveal_strlit("https://slack.com/api/chat.update");
    assert(SLACK_API_BASE@ + "/chat.update"@ =~= "https://slack.com/api/chat.update"@);
    law_requests_carry_the_token(SLACK_API_BASE@, token);
}

} // verus!
