//! What can go wrong in the channel layer.
use vstd::prelude::*;
use vstd::string::*;

verus! {

/// A failure of the channel layer, with what it concerns.
#[derive(Clone, Debug, PartialEq, Eq)]
pub enum ChannelError {
    PluginNotFound(String),
    InvalidPluginType(String),
    PluginAlreadyRunning(String),
    InvalidConfig(String),
    ConnectionFailed(String),
    PairingNotFound(String),
    PairingExpired(String),
    PairingAlreadyProcessed(String),
    UserNotFound(String),
    UserNotAuthorized(String),
    SessionNotFound(String),
    EncryptionFailed(String),
    DecryptionFailed(String),
    PlatformApi(String),
    MessageSendFailed(String),
    Database(String),
    Json(String),
}

/// What an error holds.
pub enum ErrorView {
    PluginNotFound(Seq<char>),
    InvalidPluginType(Seq<char>),
    PluginAlreadyRunning(Seq<char>),
    InvalidConfig(Seq<char>),
    ConnectionFailed(Seq<char>),
    PairingNotFound(Seq<char>),
    PairingExpired(Seq<char>),
    PairingAlreadyProcessed(Seq<char>),
    UserNotFound(Seq<char>),
    UserNotAuthorized(Seq<char>),
    SessionNotFound(Seq<char>),
    EncryptionFailed(Seq<char>),
    DecryptionFailed(Seq<char>),
    PlatformApi(Seq<char>),
    MessageSendFailed(Seq<char>),
    Database(Seq<char>),
    Json(Seq<char>),
}

impl View for ChannelError {
    type V = ErrorView;

    open spec fn view(&self) -> ErrorView {
        match self {
            ChannelError::PluginNotFound(s) => ErrorView::PluginNotFound(s@),
            ChannelError::InvalidPluginType(s) => ErrorView::InvalidPluginType(s@),
            ChannelError::PluginAlreadyRunning(s) => ErrorView::PluginAlreadyRunning(s@),
            ChannelError::InvalidConfig(s) => ErrorView::InvalidConfig(s@),
            ChannelError::ConnectionFailed(s) => ErrorView::ConnectionFailed(s@),
            ChannelError::PairingNotFound(s) => ErrorView::PairingNotFound(s@),
            ChannelError::PairingExpired(s) => ErrorView::PairingExpired(s@),
            ChannelError::PairingAlreadyProcessed(s) => ErrorView::PairingAlreadyProcessed(s@),
            ChannelError::UserNotFound(s) => ErrorView::UserNotFound(s@),
            ChannelError::UserNotAuthorized(s) => ErrorView::UserNotAuthorized(s@),
            ChannelError::SessionNotFound(s) => ErrorView::SessionNotFound(s@),
            ChannelError::EncryptionFailed(s) => ErrorView::EncryptionFailed(s@),
            ChannelError::DecryptionFailed(s) => ErrorView::DecryptionFailed(s@),
            ChannelError::PlatformApi(s) => ErrorView::PlatformApi(s@),
            ChannelError::MessageSendFailed(s) => ErrorView::MessageSendFailed(s@),
            ChannelError::Database(s) => ErrorView::Database(s@),
            ChannelError::Json(s) => ErrorView::Json(s@),
        }
    }
}

/// The words for an error.
pub open spec fn error_text(e: ErrorView) -> Seq<char> {
    match e {
        ErrorView::PluginNotFound(s) => "Plugin not found: "@ + s,
        ErrorView::InvalidPluginType(s) => "Invalid plugin type: "@ + s,
        ErrorView::PluginAlreadyRunning(s) => "Plugin already running: "@ + s,
        ErrorView::InvalidConfig(s) => "Invalid plugin configuration: "@ + s,
        ErrorView::ConnectionFailed(s) => "Plugin connection failed: "@ + s,
        ErrorView::PairingNotFound(s) => "Pairing code not found: "@ + s,
        ErrorView::PairingExpired(s) => "Pairing code expired: "@ + s,
        ErrorView::PairingAlreadyProcessed(s) => "Pairing code already processed: "@ + s,
        ErrorView::UserNotFound(s) => "User not found: "@ + s,
        ErrorView::UserNotAuthorized(s) => "User not authorized: "@ + s,
        ErrorView::SessionNotFound(s) => "Session not found: "@ + s,
        ErrorView::EncryptionFailed(s) => "Credential encryption failed: "@ + s,
        ErrorView::DecryptionFailed(s) => "Credential decryption failed: "@ + s,
        ErrorView::PlatformApi(s) => "Platform API error: "@ + s,
        ErrorView::MessageSendFailed(s) => "Message send failed: "@ + s,
        ErrorView::Database(s) => s,
        ErrorView::Json(s) => "JSON error: "@ + s,
    }
}

fn prefixed(prefix: &str, s: &String) -> (r: String)
    ensures
        r@ == prefix@ + s@,
{
    let mut out = prefix.to_owned();
    out.append(s.as_str());
    out
}

impl ChannelError {
    /// The words for this error.
    pub fn message(&self) -> (r: String)
        ensures
            r@ == error_text(self@),
    {
        match self {
            ChannelError::PluginNotFound(s) => prefixed("Plugin not found: ", s),
            ChannelError::InvalidPluginType(s) => prefixed("Invalid plugin type: ", s),
            ChannelError::PluginAlreadyRunning(s) => prefixed("Plugin already running: ", s),
            ChannelError::InvalidConfig(s) => prefixed("Invalid plugin configuration: ", s),
            ChannelError::ConnectionFailed(s) => prefixed("Plugin connection failed: ", s),
            ChannelError::PairingNotFound(s) => prefixed("Pairing code not found: ", s),
            ChannelError::PairingExpired(s) => prefixed("Pairing code expired: ", s),
            ChannelError::PairingAlreadyProcessed(s) => prefixed("Pairing code already processed: ", s),
            ChannelError::UserNotFound(s) => prefixed("User not found: ", s),
            ChannelError::UserNotAuthorized(s) => prefixed("User not authorized: ", s),
            ChannelError::SessionNotFound(s) => prefixed("Session not found: ", s),
            ChannelError::EncryptionFailed(s) => prefixed("Credential encryption failed: ", s),
            ChannelError::DecryptionFailed(s) => prefixed("Credential decryption failed: ", s),
            ChannelError::PlatformApi(s) => prefixed("Platform API error: ", s),
            ChannelError::MessageSendFailed(s) => prefixed("Message send failed: ", s),
            ChannelError::Database(s) => s.clone(),
            ChannelError::Json(s) => prefixed("JSON error: ", s),
        }
    }
}

/// The words for an error end with what it is about.
pub proof fn law_errors_say_what_they_are_about(s: Seq<char>)
    ensures
        error_text(ErrorView::PluginNotFound(s)) == "Plugin not found: "@ + s,
        error_text(ErrorView::InvalidPluginType(s)) == "Invalid plugin type: "@ + s,
        error_text(ErrorView::InvalidConfig(s)) == "Invalid plugin configuration: "@ + s,
        error_text(ErrorView::ConnectionFailed(s)) == "Plugin connection failed: "@ + s,
        error_text(ErrorView::PairingNotFound(s)) == "Pairing code not found: "@ + s,
        error_text(ErrorView::PairingExpired(s)) == "Pairing code expired: "@ + s,
        error_text(ErrorView::PairingAlreadyProcessed(s)) == "Pairing code already processed: "@ + s,
        error_text(ErrorView::PlatformApi(s)) == "Platform API error: "@ + s,
        error_text(ErrorView::MessageSendFailed(s)) == "Message send failed: "@ + s,
        error_text(ErrorView::Database(s)) == s,
        error_text(ErrorView::PluginAlreadyRunning(s)) == "Plugin already running: "@ + s,
        error_text(ErrorView::UserNotFound(s)) == "User not found: "@ + s,
        error_text(ErrorView::UserNotAuthorized(s)) == "User not authorized: "@ + s,
        error_text(ErrorView::SessionNotFound(s)) == "Session not found: "@ + s,
        error_text(ErrorView::EncryptionFailed(s)) == "Credential encryption failed: "@ + s,
        error_text(ErrorView::DecryptionFailed(s)) == "Credential decryption failed: "@ + s,
        error_text(ErrorView::Json(s)) == "JSON error: "@ + s,
{
}

} // verus!
