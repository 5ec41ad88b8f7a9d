//! The life of a plugin: created, initialized, started, stopped.
use vstd::prelude::*;
use vstd::string::*;

use crate::error;
use crate::error::ChannelError;
use crate::text::cat;
use crate::types;
use crate::types::{BotInfo, PluginStatus, PluginType};

verus! {

/// Where a plugin is in its life, who its bot is and what went wrong last.
#[derive(Debug)]
pub struct PluginState<A> {
    pub plugin_type: PluginType,
    pub status: PluginStatus,
    pub bot_info: Option<BotInfo>,
    pub last_error: Option<String>,
    /// The means by which the plugin reaches its platform.
    pub api: Option<A>,
    /// Whether the plugin has somewhere to deliver messages and has not been
    /// started with it.
    pub armed: bool,
}

/// What a plugin's state holds.
pub struct StateView<A> {
    pub plugin_type: PluginType,
    pub status: PluginStatus,
    pub bot_info: Option<types::BotInfoView>,
    pub last_error: Option<Seq<char>>,
    pub api: Option<A>,
    pub armed: bool,
}

impl<A> View for PluginState<A> {
    type V = StateView<A>;

    open spec fn view(&self) -> StateView<A> {
        StateView {
            plugin_type: self.plugin_type,
            status: self.status,
            bot_info: match self.bot_info {
                Some(b) => Some(b@),
                None => None,
            },
            last_error: types::opt_text(self.last_error),
            api: self.api,
            armed: self.armed,
        }
    }
}

/// A plugin to which nothing has happened.
pub open spec fn created<A>(plugin_type: PluginType) -> StateView<A> {
    StateView {
        plugin_type,
        status: PluginStatus::Created,
        bot_info: None,
        last_error: None,
        api: None,
        armed: false,
    }
}

/// The state after something went wrong.
pub open spec fn failed<A>(s: StateView<A>, message: Seq<char>) -> StateView<A> {
    StateView { status: PluginStatus::Error, last_error: Some(message), ..s }
}

/// The state after the platform accepted the bot.
pub open spec fn made_ready<A>(s: StateView<A>, bot: types::BotInfoView, api: A) -> StateView<A> {
    StateView { status: PluginStatus::Ready, bot_info: Some(bot), api: Some(api), armed: true, ..s }
}

/// The state after a start: it runs where it was made ready since the last one.
pub open spec fn started<A>(s: StateView<A>) -> StateView<A> {
    if s.armed {
        StateView { status: PluginStatus::Running, armed: false, ..s }
    } else {
        failed(s, "Plugin not initialized"@)
    }
}

/// The state after a stop.
pub open spec fn stopped<A>(s: StateView<A>) -> StateView<A> {
    StateView { status: PluginStatus::Stopped, api: None, ..s }
}

/// The words of a failure to make the client for the platform.
pub open spec fn client_failure(reason: Seq<char>) -> Seq<char> {
    "HTTP client init failed: "@ + reason
}

/// The words of credentials that the platform did not accept.
pub open spec fn rejection(e: error::ErrorView) -> Seq<char> {
    "Credential validation failed: "@ + error::error_text(e)
}

impl<A> PluginState<A> {
    /// A plugin to which nothing has happened.
    pub fn new(plugin_type: PluginType) -> (r: Self)
        ensures
            r@ == created::<A>(plugin_type),
    {
        PluginState {
            plugin_type,
            status: PluginStatus::Created,
            bot_info: None,
            last_error: None,
            api: None,
            armed: false,
        }
    }

    /// Begins an initialization.
    pub fn begin(&mut self)
        ensures
            final(self)@ == (StateView { status: PluginStatus::Initializing, ..old(self)@ }),
    {
        self.status = PluginStatus::Initializing;
    }

    /// Notes what went wrong.
    pub fn fail(&mut self, message: String)
        ensures
            final(self)@ == failed(old(self)@, message@),
    {
        self.status = PluginStatus::Error;
        self.last_error = Some(message);
    }

    /// Notes that the client for the platform could not be made.
    pub fn client_failed(&mut self, reason: &str) -> (r: ChannelError)
        ensures
            final(self)@ == failed(old(self)@, client_failure(reason@)),
            r@ == error::ErrorView::ConnectionFailed(client_failure(reason@)),
    {
        self.fail(cat("HTTP client init failed: ", reason));
        ChannelError::ConnectionFailed(cat("HTTP client init failed: ", reason))
    }

    /// Notes that the platform did not accept the credentials.
    pub fn rejected(&mut self, e: &ChannelError)
        ensures
            final(self)@ == failed(old(self)@, rejection(e@)),
    {
        self.fail(cat("Credential validation failed: ", e.message().as_str()));
    }

    /// Notes that the platform accepted the bot.
    pub fn ready(&mut self, bot: BotInfo, api: A)
        ensures
            final(self)@ == made_ready(old(self)@, bot@, api),
    {
        self.bot_info = Some(bot);
        self.api = Some(api);
        self.armed = true;
        self.status = PluginStatus::Ready;
    }

    /// Starts the plugin; it must have been made ready since it was started
    /// last. A plugin that was stopped before its start has nothing to start.
    pub fn start(&mut self) -> (r: Result<(), ChannelError>)
        requires
            old(self).armed ==> old(self).api is Some,
        ensures
            final(self)@ == started(old(self)@),
            r is Ok <==> old(self).armed,
            r matches Err(e) ==> e@ == error::ErrorView::ConnectionFailed("Plugin not initialized"@),
    {
        if !self.armed {
            self.fail("Plugin not initialized".to_owned());
            return Err(ChannelError::ConnectionFailed("Plugin not initialized".to_owned()));
        }
        self.armed = false;
        self.status = PluginStatus::Running;
        Ok(())
    }

    /// Stops the plugin.
    pub fn stop(&mut self)
        ensures
            final(self)@ == stopped(old(self)@),
    {
        self.api = None;
        self.status = PluginStatus::Stopped;
    }

    /// The means by which a message can be sent.
    pub fn require_api(&self) -> (r: Result<&A, ChannelError>)
        ensures
            match r {
                Ok(api) => self.api == Some(*api),
                Err(e) => self.api is None && e@ == error::ErrorView::PlatformApi("Plugin not initialized"@),
            },
    {
        match &self.api {
            Some(api) => Ok(api),
            None => Err(ChannelError::PlatformApi("Plugin not initialized".to_owned())),
        }
    }

    /// The platform of this plugin.
    pub fn plugin_type(&self) -> (r: PluginType)
        ensures
            r == self.plugin_type,
    {
        self.plugin_type
    }

    /// Where this plugin is in its life.
    pub fn status(&self) -> (r: PluginStatus)
        ensures
            r == self.status,
    {
        self.status
    }

    /// Who the bot of this plugin is.
    pub fn bot_info(&self) -> (r: Option<&BotInfo>)
        ensures
            match r {
                Some(b) => self.bot_info == Some(*b),
                None => self.bot_info is None,
            },
    {
        self.bot_info.as_ref()
    }

    /// What went wrong last.
    pub fn last_error(&self) -> (r: Option<&str>)
        ensures
            types::opt_str(r) == types::opt_text(self.last_error),
    {
        types::borrow_opt(&self.last_error)
    }

    /// How many users the plugin counts: a platform plugin counts none.
    pub fn active_user_count(&self) -> (r: usize)
        ensures
            r == 0,
    {
        0
    }
}

/// Whether a plugin in this state can say what went wrong, where something did.
pub open spec fn explains_errors<A>(s: StateView<A>) -> bool {
    s.status == PluginStatus::Error ==> s.last_error is Some
}

/// A plugin in the state of an error always has the message of its last error.
pub proof fn law_errors_are_explained<A>(
    s: StateView<A>,
    plugin_type: PluginType,
    message: Seq<char>,
    bot: types::BotInfoView,
    api: A,
)
    ensures
        explains_errors(created::<A>(plugin_type)),
        explains_errors(failed(s, message)),
        failed(s, message).last_error == Some(message),
        explains_errors(made_ready(s, bot, api)),
        explains_errors(started(s)),
        explains_errors(stopped(s)),
{
}

/// A plugin that was made ready starts, and starts only once.
pub proof fn law_starts_once<A>(s: StateView<A>, bot: types::BotInfoView, api: A)
    ensures
        started(made_ready(s, bot, api)).status == PluginStatus::Running,
        started(started(made_ready(s, bot, api))).status == PluginStatus::Error,
{
}

/// A plugin that never became ready does not start.
pub proof fn law_no_start_without_ready<A>(plugin_type: PluginType)
    ensures
        started(created::<A>(plugin_type)).status == PluginStatus::Error,
        created::<A>(plugin_type).api is None,
{
}

/// A stopped plugin keeps its bot and reaches nobody.
pub proof fn law_stop_disconnects<A>(s: StateView<A>)
    ensures
        stopped(s).api is None,
        stopped(s).status == PluginStatus::Stopped,
        stopped(s).bot_info == s.bot_info,
        stopped(stopped(s)) == stopped(s),
{
}

/// A plugin that the platform accepted is ready as that bot and with that access; a start
/// lets it run with them, and a stop takes the access away. A failure takes nothing away.
pub proof fn law_ready_plugin_runs<A>(s: StateView<A>, bot: types::BotInfoView, api: A, message: Seq<char>)
    ensures
        made_ready(s, bot, api).status == PluginStatus::Ready,
        made_ready(s, bot, api).bot_info == Some(bot),
        made_ready(s, bot, api).api == Some(api),
        made_ready(s, bot, api).plugin_type == s.plugin_type,
        started(made_ready(s, bot, api)).status == PluginStatus::Running,
        started(made_ready(s, bot, api)).api == Some(api),
        started(made_ready(s, bot, api)).bot_info == Some(bot),
        stopped(started(made_ready(s, bot, api))).status == PluginStatus::Stopped,
        stopped(started(made_ready(s, bot, api))).api is None,
        failed(s, message).api == s.api,
        failed(s, message).status == PluginStatus::Error,
{
}

/// A failure says what failed, and why.
pub proof fn law_failures_say_why(reason: Seq<char>, e: error::ErrorView)
    ensures
        client_failure(reason) == "HTTP client init failed: "@ + reason,
        rejection(e) == "Credential validation failed: "@ + error::error_text(e),
{
}

} // verus!
