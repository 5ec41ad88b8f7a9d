//! The life of the Slack plugin and the messages that it sends.
use vstd::prelude::*;
use vstd::string::*;

use super::api;
use super::api::{SlackApi, SlackIdentity};
use crate::error;
use crate::error::ChannelError;
use crate::plugins::http;
use crate::plugins::http::HttpRequest;
use crate::plugins::lifecycle;
use crate::plugins::lifecycle::PluginState;
use crate::text;
use crate::text::truncate_message;
use crate::types;
use crate::types::{copy_nonempty, BotInfo, PluginCredentials, PluginType, UnifiedOutgoingMessage};

verus! {

/// The Slack plugin.
#[derive(Debug)]
pub struct SlackPlugin {
    pub state: PluginState<SlackApi>,
    /// The id of the bot, empty until it is known.
    pub bot_user_id: String,
    /// Whether there is a token that opens sockets.
    pub app_token_present: bool,
}

/// The token of the bot.
pub fn require_bot_token(credentials: &PluginCredentials) -> (r: Result<String, ChannelError>)
    ensures
        match types::nonempty(types::opt_text(credentials.token)) {
            Some(token) => r matches Ok(t) && t@ == token,
            None => r matches Err(e) && e@ == error::ErrorView::InvalidConfig("Missing Slack bot token (xoxb-)"@),
        },
{
    match copy_nonempty(&credentials.token) {
        Some(token) => Ok(token),
        None => Err(ChannelError::InvalidConfig("Missing Slack bot token (xoxb-)".to_owned())),
    }
}

/// The bot of an identity.
pub open spec fn bot_view(id: Seq<char>, name: Option<Seq<char>>) -> types::BotInfoView {
    types::BotInfoView {
        id,
        username: name,
        display_name: match name {
            Some(n) => n,
            None => "Slack Bot"@,
        },
    }
}

/// The request that sends a message, cut to the limit of the platform.
pub open spec fn sent_request(
    bot_token: Seq<char>,
    chat_id: Seq<char>,
    message: types::OutgoingView,
    limit: nat,
) -> http::RequestView {
    api::post_request(
        bot_token,
        chat_id,
        text::cut_to_limit(types::text_or_empty(message.text), limit),
        message.reply_to_message_id,
    )
}

/// The request that edits a message, cut to the limit of the platform.
pub open spec fn edited_request(
    bot_token: Seq<char>,
    chat_id: Seq<char>,
    message_id: Seq<char>,
    message: types::OutgoingView,
    limit: nat,
) -> http::RequestView {
    api::update_request(
        bot_token,
        chat_id,
        message_id,
        text::cut_to_limit(types::text_or_empty(message.text), limit),
    )
}

impl SlackPlugin {
    /// A plugin to which nothing has happened.
    pub fn new() -> (r: Self)
        ensures
            r.state@ == lifecycle::created::<SlackApi>(PluginType::Slack),
            r.bot_user_id@.len() == 0,
            !r.app_token_present,
    {
        SlackPlugin {
            state: PluginState::new(PluginType::Slack),
            bot_user_id: String::new(),
            app_token_present: false,
        }
    }

    /// Begins an initialization; it needs the token of a bot. The token that
    /// opens sockets is needed only at the start.
    pub fn initialize(&mut self, credentials: &PluginCredentials) -> (r: Result<SlackApi, ChannelError>)
        ensures
            final(self).bot_user_id == old(self).bot_user_id,
            match types::nonempty(types::opt_text(credentials.token)) {
                Some(token) => {
                    &&& r matches Ok(a) && a.bot_token@ == token && a.app_token@ == types::text_or_empty(
                        types::opt_text(credentials.app_token),
                    )
                    &&& final(self).app_token_present == types::nonempty(types::opt_text(credentials.app_token)) is Some
                    &&& final(self).state@ == (lifecycle::StateView {
                        status: types::PluginStatus::Initializing,
                        ..old(self).state@
                    })
                },
                None => {
                    &&& r matches Err(e) && e@ == error::ErrorView::InvalidConfig("Missing Slack bot token (xoxb-)"@)
                    &&& final(self).app_token_present == old(self).app_token_present
                    &&& final(self).state@ == lifecycle::failed(old(self).state@, "Missing Slack bot token"@)
                },
            },
    {
        self.state.begin();
        match require_bot_token(credentials) {
            Ok(token) => {
                let app_token = types::copy_or_empty(&credentials.app_token);
                self.app_token_present = !app_token.as_str().is_empty();
                Ok(SlackApi::new(token.as_str(), app_token.as_str()))
            },
            Err(e) => {
                self.state.fail("Missing Slack bot token".to_owned());
                Err(e)
            },
        }
    }

    /// Ends an initialization with the identity of the bot.
    pub fn identified(&mut self, api: SlackApi, identity: SlackIdentity)
        ensures
            final(self).bot_user_id@ == identity.user_id@,
            final(self).app_token_present == old(self).app_token_present,
            final(self).state@ == lifecycle::made_ready(
                old(self).state@,
                bot_view(identity.user_id@, types::opt_text(identity.user)),
                api,
            ),
    {
        let display_name = match &identity.user {
            Some(name) => name.clone(),
            None => "Slack Bot".to_owned(),
        };
        self.bot_user_id = identity.user_id.clone();
        self.state.ready(BotInfo { id: identity.user_id, username: identity.user, display_name }, api);
    }

    /// Starts the plugin; it needs the token that opens sockets, and to have been
    /// made ready since it was started last.
    pub fn start(&mut self) -> (r: Result<(), ChannelError>)
        requires
            old(self).app_token_present && old(self).state.armed ==> old(self).state.api is Some,
        ensures
            final(self).bot_user_id == old(self).bot_user_id,
            final(self).app_token_present == old(self).app_token_present,
            if !old(self).app_token_present {
                &&& r matches Err(e) && e@ == error::ErrorView::InvalidConfig(
                    "Missing Slack app-level token (xapp-), required for Socket Mode"@,
                )
                &&& final(self).state@ == lifecycle::failed(old(self).state@, "Missing Slack app-level token"@)
            } else {
                &&& final(self).state@ == lifecycle::started(old(self).state@)
                &&& r is Ok <==> old(self).state.armed
                &&& r matches Err(e) ==> e@ == error::ErrorView::ConnectionFailed("Plugin not initialized"@)
            },
    {
        if !self.app_token_present {
            self.state.fail("Missing Slack app-level token".to_owned());
            return Err(
                ChannelError::InvalidConfig(
                    "Missing Slack app-level token (xapp-), required for Socket Mode".to_owned(),
                ),
            );
        }
        self.state.start()
    }

    /// The request that sends a message, cut to the limit of the platform.
    pub fn send_message(&self, chat_id: &str, message: &UnifiedOutgoingMessage, limit: usize) -> (r: Result<
        HttpRequest,
        ChannelError,
    >)
        ensures
            match self.state.api {
                Some(a) => r matches Ok(q) && q@ == sent_request(a.bot_token@, chat_id@, message@, limit as nat),
                None => r matches Err(e) && e@ == error::ErrorView::PlatformApi("Plugin not initialized"@),
            },
    {
        match self.state.require_api() {
            Ok(a) => {
                let cut = truncate_message(types::copy_or_empty(&message.text).as_str(), limit);
                Ok(a.post_message(chat_id, cut.as_str(), types::borrow_opt(&message.reply_to_message_id)))
            },
            Err(e) => Err(e),
        }
    }

    /// The request that edits a message, cut to the limit of the platform.
    pub fn edit_message(
        &self,
        chat_id: &str,
        message_id: &str,
        message: &UnifiedOutgoingMessage,
        limit: usize,
    ) -> (r: Result<HttpRequest, ChannelError>)
        ensures
            match self.state.api {
                Some(a) => r matches Ok(q) && q@ == edited_request(
                    a.bot_token@,
                    chat_id@,
                    message_id@,
                    message@,
                    limit as nat,
                ),
                None => r matches Err(e) && e@ == error::ErrorView::PlatformApi("Plugin not initialized"@),
            },
    {
        match self.state.require_api() {
            Ok(a) => {
                let cut = truncate_message(types::copy_or_empty(&message.text).as_str(), limit);
                Ok(a.update_message(chat_id, message_id, cut.as_str()))
            },
            Err(e) => Err(e),
        }
    }
}

/// A message goes to its chat with its own text, into the thread that it answers; an edit
/// gives the message that it names the new text.
pub proof fn law_text_goes_out(
    bot_token: Seq<char>,
    chat_id: Seq<char>,
    message_id: Seq<char>,
    message: types::OutgoingView,
    limit: nat,
)
    requires
        message.text matches Some(t) && t.len() <= limit,
    ensures
        sent_request(bot_token, chat_id, message, limit).body == Some(
            api::post_body(chat_id, message.text->0, message.reply_to_message_id),
        ),
        edited_request(bot_token, chat_id, message_id, message, limit).body == Some(
            api::update_body(chat_id, message_id, message.text->0),
        ),
        sent_request(bot_token, chat_id, message, limit).url == api::post_request(
            bot_token,
            chat_id,
            message.text->0,
            None,
        ).url,
        edited_request(bot_token, chat_id, message_id, message, limit).url == api::update_request(
            bot_token,
            chat_id,
            message_id,
            message.text->0,
        ).url,
        sent_request(bot_token, chat_id, message, limit).headers == seq![("Authorization"@, "Bearer "@ + bot_token)],
        edited_request(bot_token, chat_id, message_id, message, limit).headers == seq![("Authorization"@, "Bearer "@ + bot_token)],
{
    api::law_requests_go_to_their_method(bot_token, chat_id, message_id, message.text->0, None);
}

/// A bot is shown under its own name, or as a bot of Slack where it has none.
pub proof fn law_bot_has_its_name(id: Seq<char>, name: Option<Seq<char>>)
    ensures
        bot_view(id, name).id == id,
        bot_view(id, name).username == name,
        name is Some ==> bot_view(id, name).display_name == name->0,
        name is None ==> bot_view(id, name).display_name == "Slack Bot"@,
{
}

} // verus!
