//! The life of the Discord plugin and the messages that it sends.
use vstd::prelude::*;
use vstd::string::*;

use super::api;
use super::api::{DiscordApi, DiscordIdentity};
use crate::error;
use crate::error::ChannelError;
use crate::plugins::http;
use crate::plugins::http::{HttpRequest, Method};
use crate::plugins::lifecycle;
use crate::plugins::lifecycle::PluginState;
use crate::text;
use crate::text::truncate_message;
use crate::types;
use crate::types::{copy_nonempty, BotInfo, PluginCredentials, PluginType, UnifiedOutgoingMessage};

verus! {

/// The Discord plugin.
#[derive(Debug)]
pub struct DiscordPlugin {
    pub state: PluginState<DiscordApi>,
    /// The id of the bot, empty until it is known.
    pub bot_user_id: String,
}

/// The bot of an identity.
pub open spec fn bot_view(id: Seq<char>, name: Option<Seq<char>>) -> types::BotInfoView {
    types::BotInfoView {
        id,
        username: name,
        display_name: match name {
            Some(n) => n,
            None => "Discord Bot"@,
        },
    }
}

/// The request that sends a message, cut to the limit of the platform.
pub open spec fn sent_request(
    token: Seq<char>,
    chat_id: Seq<char>,
    message: types::OutgoingView,
    limit: nat,
) -> http::RequestView {
    api::create_request(
        token,
        chat_id,
        text::cut_to_limit(types::text_or_empty(message.text), limit),
        message.reply_to_message_id,
    )
}

/// The request that edits a message, cut to the limit of the platform.
pub open spec fn edited_request(
    token: Seq<char>,
    chat_id: Seq<char>,
    message_id: Seq<char>,
    message: types::OutgoingView,
    limit: nat,
) -> http::RequestView {
    api::edit_request(token, chat_id, message_id, text::cut_to_limit(types::text_or_empty(message.text), limit))
}

impl DiscordPlugin {
    /// A plugin to which nothing has happened.
    pub fn new() -> (r: Self)
        ensures
            r.state@ == lifecycle::created::<DiscordApi>(PluginType::Discord),
            r.bot_user_id@.len() == 0,
    {
        DiscordPlugin { state: PluginState::new(PluginType::Discord), bot_user_id: String::new() }
    }

    /// Begins an initialization; it needs the token of a bot.
    pub fn initialize(&mut self, credentials: &PluginCredentials) -> (r: Result<DiscordApi, ChannelError>)
        ensures
            final(self).bot_user_id == old(self).bot_user_id,
            match types::nonempty(types::opt_text(credentials.token)) {
                Some(token) => {
                    &&& r matches Ok(a) && a.token@ == token
                    &&& final(self).state@ == (lifecycle::StateView {
                        status: types::PluginStatus::Initializing,
                        ..old(self).state@
                    })
                },
                None => {
                    &&& r matches Err(e) && e@ == error::ErrorView::InvalidConfig("Missing Discord bot token"@)
                    &&& final(self).state@ == lifecycle::failed(old(self).state@, "Missing Discord bot token"@)
                },
            },
    {
        self.state.begin();
        match copy_nonempty(&credentials.token) {
            Some(token) => Ok(DiscordApi::new(token.as_str())),
            None => {
                self.state.fail("Missing Discord bot token".to_owned());
                Err(ChannelError::InvalidConfig("Missing Discord bot token".to_owned()))
            },
        }
    }

    /// Ends an initialization with the identity of the bot.
    pub fn identified(&mut self, api: DiscordApi, identity: DiscordIdentity)
        ensures
            final(self).bot_user_id@ == identity.id@,
            final(self).state@ == lifecycle::made_ready(
                old(self).state@,
                bot_view(identity.id@, types::opt_text(identity.display_name)),
                api,
            ),
    {
        let display_name = match &identity.display_name {
            Some(name) => name.clone(),
            None => "Discord Bot".to_owned(),
        };
        self.bot_user_id = identity.id.clone();
        self.state.ready(BotInfo { id: identity.id, username: identity.display_name, display_name }, api);
    }

    /// The request that sends a message, cut to the limit of the platform.
    pub fn send_message(&self, chat_id: &str, message: &UnifiedOutgoingMessage, limit: usize) -> (r: Result<
        HttpRequest,
        ChannelError,
    >)
        ensures
            match self.state.api {
                Some(a) => r matches Ok(q) && q@ == sent_request(a.token@, chat_id@, message@, limit as nat),
                None => r matches Err(e) && e@ == error::ErrorView::PlatformApi("Plugin not initialized"@),
            },
    {
        match self.state.require_api() {
            Ok(a) => {
                let cut = truncate_message(types::copy_or_empty(&message.text).as_str(), limit);
                Ok(a.create_message(chat_id, cut.as_str(), types::borrow_opt(&message.reply_to_message_id)))
            },
            Err(e) => Err(e),
        }
    }

    /// The request that edits a message, cut to the limit of the platform.
    pub fn edit_message(
        &self,
        chat_id: &str,
        message_id: &str,
        message: &UnifiedOutgoingMessage,
        limit: usize,
    ) -> (r: Result<HttpRequest, ChannelError>)
        ensures
            match self.state.api {
                Some(a) => r matches Ok(q) && q@ == edited_request(
                    a.token@,
                    chat_id@,
                    message_id@,
                    message@,
                    limit as nat,
                ),
                None => r matches Err(e) && e@ == error::ErrorView::PlatformApi("Plugin not initialized"@),
            },
    {
        match self.state.require_api() {
            Ok(a) => {
                let cut = truncate_message(types::copy_or_empty(&message.text).as_str(), limit);
                Ok(a.edit_message(chat_id, message_id, cut.as_str()))
            },
            Err(e) => Err(e),
        }
    }
}

/// A message goes to its chat with its own text, as an answer to the message that it
/// answers; an edit gives the message that it names the new text.
pub proof fn law_text_goes_out(
    token: Seq<char>,
    chat_id: Seq<char>,
    message_id: Seq<char>,
    message: types::OutgoingView,
    limit: nat,
)
    requires
        message.text matches Some(t) && t.len() <= limit,
    ensures
        sent_request(token, chat_id, message, limit).body == Some(
            api::message_body(message.text->0, message.reply_to_message_id),
        ),
        edited_request(token, chat_id, message_id, message, limit).body == Some(
            api::message_body(message.text->0, None),
        ),
        sent_request(token, chat_id, message, limit).url == api::create_request(
            token,
            chat_id,
            message.text->0,
            None,
        ).url,
        edited_request(token, chat_id, message_id, message, limit).url == api::edit_request(
            token,
            chat_id,
            message_id,
            message.text->0,
        ).url,
        sent_request(token, chat_id, message, limit).headers == seq![("Authorization"@, "Bot "@ + token)],
        edited_request(token, chat_id, message_id, message, limit).headers == seq![("Authorization"@, "Bot "@ + token)],
{
    api::law_requests_go_where_they_should(token, chat_id, message_id, message.text->0, None);
}

/// A bot is shown under its own name, or as a bot of Discord where it has none.
pub proof fn law_bot_has_its_name(id: Seq<char>, name: Option<Seq<char>>)
    ensures
        bot_view(id, name).id == id,
        bot_view(id, name).username == name,
        name is Some ==> bot_view(id, name).display_name == name->0,
        name is None ==> bot_view(id, name).display_name == "Discord Bot"@,
{
}

} // verus!
