//! The login by QR code, as a sequence of events.
use vstd::prelude::*;
use vstd::string::*;

use super::types::{QrCodeData, QrCodeStatusData};
use crate::error;
use crate::error::ChannelError;
use crate::json;
use crate::json::{object, write_json};
use crate::text;
use crate::text::{cat, contains_text, str_eq};
use crate::types;
use crate::types::{copy_nonempty, copy_or_empty};

verus! {

/// Where the login takes place.
pub const LOGIN_BASE_URL: &'static str = "https://ilinkai.weixin.qq.com";

/// The seconds between two looks at the QR code.
pub const QR_POLL_INTERVAL: u64 = 2;

/// The seconds after which the login is given up.
pub const QR_LOGIN_TIMEOUT: u64 = 300;

/// A step of the login, as it is shown.
#[derive(Debug)]
pub enum WeixinLoginEvent {
    /// The content of the QR code.
    Qr(String),
    /// The QR code was scanned.
    Scanned,
    /// The login succeeded.
    Done { account_id: String, bot_token: String, base_url: String },
    /// The login failed.
    Error(String),
}

/// What a step of the login holds.
pub enum LoginView {
    Qr(Seq<char>),
    Scanned,
    Done { account_id: Seq<char>, bot_token: Seq<char>, base_url: Seq<char> },
    Error(Seq<char>),
}

impl View for WeixinLoginEvent {
    type V = LoginView;

    open spec fn view(&self) -> LoginView {
        match self {
            WeixinLoginEvent::Qr(s) => LoginView::Qr(s@),
            WeixinLoginEvent::Scanned => LoginView::Scanned,
            WeixinLoginEvent::Done { account_id, bot_token, base_url } => LoginView::Done {
                account_id: account_id@,
                bot_token: bot_token@,
                base_url: base_url@,
            },
            WeixinLoginEvent::Error(s) => LoginView::Error(s@),
        }
    }
}

/// The name of a step.
pub open spec fn step_name(e: LoginView) -> Seq<char> {
    match e {
        LoginView::Qr(_) => "qr"@,
        LoginView::Scanned => "scanned"@,
        LoginView::Done { .. } => "done"@,
        LoginView::Error(_) => "error"@,
    }
}

/// The text of what a step carries.
pub open spec fn step_data(e: LoginView) -> Seq<char> {
    match e {
        LoginView::Qr(ticket) => json::json_text(json::no_members().text("qrcodeData"@, ticket)),
        LoginView::Scanned => "{}"@,
        LoginView::Done { account_id, bot_token, base_url } => json::json_text(
            json::no_members().text("accountId"@, account_id).text("botToken"@, bot_token).text("baseUrl"@, base_url),
        ),
        LoginView::Error(message) => json::json_text(json::no_members().text("message"@, message)),
    }
}

impl WeixinLoginEvent {
    /// The name of this step.
    pub fn event_name(&self) -> (r: &'static str)
        ensures
            r@ == step_name(self@),
    {
        match self {
            WeixinLoginEvent::Qr(_) => "qr",
            WeixinLoginEvent::Scanned => "scanned",
            WeixinLoginEvent::Done { .. } => "done",
            WeixinLoginEvent::Error(_) => "error",
        }
    }

    /// The text of what this step carries.
    pub fn to_json_data(&self) -> (r: String)
        ensures
            r@ == step_data(self@),
    {
        match self {
            WeixinLoginEvent::Qr(ticket) => write_json(&object().text("qrcodeData", ticket.as_str())),
            WeixinLoginEvent::Scanned => "{}".to_owned(),
            WeixinLoginEvent::Done { account_id, bot_token, base_url } => write_json(
                &object().text("accountId", account_id.as_str()).text("botToken", bot_token.as_str()).text(
                    "baseUrl",
                    base_url.as_str(),
                ),
            ),
            WeixinLoginEvent::Error(message) => write_json(&object().text("message", message.as_str())),
        }
    }
}

// ---------------------------------------------------------------------------
// The flow
// ---------------------------------------------------------------------------

/// A login that could not begin, for want of a client.
pub fn client_failed(reason: &str) -> (r: WeixinLoginEvent)
    ensures
        r@ == LoginView::Error("HTTP client init failed: "@ + reason@),
{
    WeixinLoginEvent::Error(cat("HTTP client init failed: ", reason))
}

/// How a login begins: with a QR code to show and the ticket to ask about, or
/// with a failure.
#[derive(Debug)]
pub enum LoginStart {
    Show(WeixinLoginEvent, String),
    Fail(WeixinLoginEvent),
}

/// How a login begins.
pub enum StartView {
    Show(LoginView, Seq<char>),
    Fail(LoginView),
}

impl View for LoginStart {
    type V = StartView;

    open spec fn view(&self) -> StartView {
        match self {
            LoginStart::Show(e, ticket) => StartView::Show(e@, ticket@),
            LoginStart::Fail(e) => StartView::Fail(e@),
        }
    }
}

/// How a login begins, with the reply to the request for a QR code.
pub open spec fn start_of(reply: Result<QrCodeData, ChannelError>) -> StartView {
    match reply {
        Err(e) => StartView::Fail(LoginView::Error("Failed to fetch QR code: "@ + error::error_text(e@))),
        Ok(data) => match types::nonempty(types::opt_text(data.qrcode)) {
            None => StartView::Fail(LoginView::Error("QR code response missing ticket"@)),
            Some(ticket) => match types::nonempty(types::opt_text(data.qrcode_img_content)) {
                None => StartView::Fail(LoginView::Error("QR code response missing qrcode_img_content"@)),
                Some(content) => StartView::Show(LoginView::Qr(content), ticket),
            },
        },
    }
}

/// How a login begins, with the reply to the request for a QR code.
pub fn begin_login(reply: Result<QrCodeData, ChannelError>) -> (r: LoginStart)
    ensures
        r@ == start_of(reply),
{
    match reply {
        Err(e) => LoginStart::Fail(
            WeixinLoginEvent::Error(cat("Failed to fetch QR code: ", e.message().as_str())),
        ),
        Ok(data) => match copy_nonempty(&data.qrcode) {
            None => LoginStart::Fail(WeixinLoginEvent::Error("QR code response missing ticket".to_owned())),
            Some(ticket) => match copy_nonempty(&data.qrcode_img_content) {
                None => LoginStart::Fail(
                    WeixinLoginEvent::Error("QR code response missing qrcode_img_content".to_owned()),
                ),
                Some(content) => LoginStart::Show(WeixinLoginEvent::Qr(content), ticket),
            },
        },
    }
}

/// The end of a login that took too long, looked at so many milliseconds after
/// the QR code was shown.
pub fn check_deadline(elapsed_ms: u64) -> (r: Option<WeixinLoginEvent>)
    ensures
        r is Some <==> elapsed_ms >= QR_LOGIN_TIMEOUT * 1000,
        r matches Some(e) ==> e@ == LoginView::Error("QR code login timeout"@),
{
    if elapsed_ms >= QR_LOGIN_TIMEOUT * 1000 {
        Some(WeixinLoginEvent::Error("QR code login timeout".to_owned()))
    } else {
        None
    }
}

/// What a look at the QR code leads to.
#[derive(Debug)]
pub enum LoginStep {
    /// Look again.
    Wait,
    /// Show a step and look again.
    Show(WeixinLoginEvent),
    /// Show a step and end the login.
    End(WeixinLoginEvent),
}

/// What a look at the QR code leads to.
pub enum LookView {
    Wait,
    Show(LoginView),
    End(LoginView),
}

impl View for LoginStep {
    type V = LookView;

    open spec fn view(&self) -> LookView {
        match self {
            LoginStep::Wait => LookView::Wait,
            LoginStep::Show(e) => LookView::Show(e@),
            LoginStep::End(e) => LookView::End(e@),
        }
    }
}

/// Whether a failure is only a look that took too long.
pub open spec fn is_timeout(e: error::ErrorView) -> bool {
    text::has_text(error::error_text(e), "timed out"@) || text::has_text(error::error_text(e), "Timeout"@)
}

/// What a look at the QR code leads to; a scan is shown only once.
pub open spec fn look(scanned: bool, reply: Result<QrCodeStatusData, ChannelError>) -> LookView {
    match reply {
        Err(e) => if is_timeout(e@) {
            LookView::Wait
        } else {
            LookView::End(LoginView::Error("Status poll failed: "@ + error::error_text(e@)))
        },
        Ok(data) => if types::opt_text(data.status) == Some("scaned"@) {
            if scanned {
                LookView::Wait
            } else {
                LookView::Show(LoginView::Scanned)
            }
        } else if types::opt_text(data.status) == Some("confirmed"@) {
            LookView::End(
                LoginView::Done {
                    account_id: types::text_or_empty(types::opt_text(data.ilink_bot_id)),
                    bot_token: types::text_or_empty(types::opt_text(data.bot_token)),
                    base_url: match data.baseurl {
                        Some(u) => u@,
                        None => LOGIN_BASE_URL@,
                    },
                },
            )
        } else if types::opt_text(data.status) == Some("expired"@) {
            LookView::End(LoginView::Error("QR code expired"@))
        } else {
            LookView::Wait
        },
    }
}

proof fn lemma_states_differ()
    ensures
        "scaned"@ != "confirmed"@,
        "scaned"@ != "expired"@,
        "confirmed"@ != "expired"@,
{
    reveal_strlit("scaned");
    reveal_strlit("confirmed");
    reveal_strlit("expired");
    assert("scaned"@[0] == 's');
    assert("confirmed"@[0] == 'c');
    assert("expired"@[0] == 'e');
}

/// Handles a look at the QR code; `scanned` says whether a scan was shown.
pub fn login_step(scanned: &mut bool, reply: Result<QrCodeStatusData, ChannelError>) -> (r: LoginStep)
    ensures
        r@ == look(*old(scanned), reply),
        *final(scanned) == (*old(scanned) || r@ == LookView::Show(LoginView::Scanned)),
{
    proof {
        lemma_states_differ();
    }
    match reply {
        Err(e) => {
            let words = e.message();
            if contains_text(words.as_str(), "timed out") || contains_text(words.as_str(), "Timeout") {
                LoginStep::Wait
            } else {
                LoginStep::End(WeixinLoginEvent::Error(cat("Status poll failed: ", words.as_str())))
            }
        },
        Ok(data) => match &data.status {
            None => LoginStep::Wait,
            Some(state) => if str_eq(state.as_str(), "scaned") {
                if *scanned {
                    LoginStep::Wait
                } else {
                    *scanned = true;
                    LoginStep::Show(WeixinLoginEvent::Scanned)
                }
            } else if str_eq(state.as_str(), "confirmed") {
                let base_url = match &data.baseurl {
                    Some(u) => u.clone(),
                    None => LOGIN_BASE_URL.to_owned(),
                };
                LoginStep::End(
                    WeixinLoginEvent::Done {
                        account_id: copy_or_empty(&data.ilink_bot_id),
                        bot_token: copy_or_empty(&data.bot_token),
                        base_url,
                    },
                )
            } else if str_eq(state.as_str(), "expired") {
                LoginStep::End(WeixinLoginEvent::Error("QR code expired".to_owned()))
            } else {
                LoginStep::Wait
            },
        },
    }
}

/// A scan is shown at most once, however often it is reported.
pub proof fn law_scan_is_shown_once(reply: Result<QrCodeStatusData, ChannelError>)
    ensures
        look(true, reply) != LookView::Show(LoginView::Scanned),
{
}

/// A login ends with a success or with an error, and shows nothing else there.
pub proof fn law_login_ends_well_or_badly(scanned: bool, reply: Result<QrCodeStatusData, ChannelError>)
    ensures
        look(scanned, reply) matches LookView::End(e) ==> e is Done || e is Error,
{
}

/// A login shows the QR code that the platform gives and looks after it by its ticket;
/// without both it fails.
pub proof fn law_login_shows_the_code(reply: Result<QrCodeData, ChannelError>)
    ensures
        start_of(reply) is Show <==> (reply matches Ok(d) && (d.qrcode matches Some(t) && t@.len() > 0) && (
        d.qrcode_img_content matches Some(c) && c@.len() > 0)),
        start_of(reply) matches StartView::Show(event, ticket) ==> event == LoginView::Qr(
            reply->Ok_0.qrcode_img_content->0@,
        ) && ticket == reply->Ok_0.qrcode->0@,
{
}

/// A confirmed login ends with the account, the token and the address that the platform
/// gives; no other look does.
pub proof fn law_login_ends_with_the_account(scanned: bool, data: QrCodeStatusData)
    ensures
        ({
            let l = look(scanned, Ok(data));
            &&& l matches LookView::End(LoginView::Done { account_id, bot_token, base_url }) ==> {
                &&& data.status matches Some(s) && s@ == "confirmed"@
                &&& data.ilink_bot_id is Some ==> account_id == data.ilink_bot_id->0@
                &&& data.bot_token is Some ==> bot_token == data.bot_token->0@
                &&& data.baseurl is Some ==> base_url == data.baseurl->0@
            }
            &&& (data.status matches Some(s) && s@ == "confirmed"@) ==> (l matches LookView::End(e) && e is Done)
            &&& (data.status matches Some(s) && s@ == "expired"@) ==> (l matches LookView::End(e) && e is Error)
            &&& l matches LookView::Show(e) ==> e == LoginView::Scanned && !scanned
        }),
{
    reveal_strlit("scaned");
    reveal_strlit("confirmed");
    reveal_strlit("expired");
    assert("scaned"@.len() == 6 && "confirmed"@.len() == 9 && "expired"@.len() == 7);
}

/// A look that took too long is no failure; any other failure ends the login with its
/// words.
pub proof fn law_only_real_failures_end_a_login(scanned: bool, e: ChannelError)
    ensures
        look(scanned, Err(e)) is Wait <==> (text::has_text(error::error_text(e@), "timed out"@) || text::has_text(
            error::error_text(e@),
            "Timeout"@,
        )),
        look(scanned, Err(e)) matches LookView::End(end) ==> (end matches LoginView::Error(words) && text::has_text(
            words,
            error::error_text(e@),
        )),
{
    let words = "Status poll failed: "@ + error::error_text(e@);
    let why = error::error_text(e@);
    let at: int = words.len() - why.len();
    assert(words.subrange(at, at + why.len() as int) =~= why);
    assert(text::occurs_at(words, why, at));
}

/// Each step of a login has its own name, and carries what belongs to it.
pub proof fn law_steps_have_their_names(e: LoginView)
    ensures
        step_name(e) == "qr"@ <==> e is Qr,
        step_name(e) == "scanned"@ <==> e is Scanned,
        step_name(e) == "done"@ <==> e is Done,
        step_name(e) == "error"@ <==> e is Error,
        e matches LoginView::Qr(code) ==> exists|j: json::JsonView|
            step_data(e) == #[trigger] json::json_text(j) && json::field(j, "qrcodeData"@) == Some(
                json::JsonView::Text(code),
            ),
        e matches LoginView::Done { account_id, bot_token, base_url } ==> exists|j: json::JsonView|
            {
                &&& step_data(e) == #[trigger] json::json_text(j)
                &&& json::field(j, "accountId"@) == Some(json::JsonView::Text(account_id))
                &&& json::field(j, "botToken"@) == Some(json::JsonView::Text(bot_token))
                &&& json::field(j, "baseUrl"@) == Some(json::JsonView::Text(base_url))
            },
        e matches LoginView::Error(message) ==> exists|j: json::JsonView|
            step_data(e) == #[trigger] json::json_text(j) && json::field(j, "message"@) == Some(
                json::JsonView::Text(message),
            ),
{
    broadcast use json::group_fields;

    reveal_strlit("qr");
    reveal_strlit("scanned");
    reveal_strlit("done");
    reveal_strlit("error");
    reveal_strlit("qrcodeData");
    reveal_strlit("accountId");
    reveal_strlit("botToken");
    reveal_strlit("baseUrl");
    reveal_strlit("message");
    assert("qr"@.len() == 2 && "scanned"@.len() == 7 && "done"@.len() == 4 && "error"@.len() == 5
        && "qrcodeData"@.len() == 10 && "accountId"@.len() == 9 && "botToken"@.len() == 8
        && "baseUrl"@.len() == 7 && "message"@.len() == 7 && "scanned"@[0] == 's' && "baseUrl"@[0] == 'b'
        && "message"@[0] == 'm');
    match e {
        LoginView::Qr(code) => {
            let j = json::no_members().text("qrcodeData"@, code);
            assert(step_data(e) == json::json_text(j) && json::field(j, "qrcodeData"@) == Some(
                json::JsonView::Text(code),
            ));
        },
        LoginView::Done { account_id, bot_token, base_url } => {
            let j = json::no_members().text("accountId"@, account_id).text("botToken"@, bot_token).text(
                "baseUrl"@,
                base_url,
            );
            assert(step_data(e) == json::json_text(j));
            assert(json::field(j, "accountId"@) == Some(json::JsonView::Text(account_id)));
            assert(json::field(j, "botToken"@) == Some(json::JsonView::Text(bot_token)));
            assert(json::field(j, "baseUrl"@) == Some(json::JsonView::Text(base_url)));
        },
        LoginView::Error(message) => {
            let j = json::no_members().text("message"@, message);
            assert(step_data(e) == json::json_text(j) && json::field(j, "message"@) == Some(
                json::JsonView::Text(message),
            ));
        },
        LoginView::Scanned => {},
    }
}

} // verus!
