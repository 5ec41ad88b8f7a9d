//! Frames and messages of Discord.
use vstd::prelude::*;
use vstd::string::*;

use super::op;
use crate::json;
use crate::json::{number, object, write_json, Json};
use crate::text;
use crate::text::{cat3, parse_u64, replace, str_eq, trim};
use crate::types;
use crate::types::{
    copy_opt, MessageContentType, PluginType, UnifiedIncomingMessage, UnifiedMessageContent, UnifiedUser,
};

verus! {

/// What the bot asks to be told: guilds, messages in guilds, direct messages
/// and the content of messages.
pub const DISCORD_INTENTS: u64 = 1 + 512 + 4096 + 32768;

/// The start of Discord's clock, in milliseconds of the Unix clock.
pub const DISCORD_EPOCH_MS: i64 = 1_420_070_400_000;

// ---------------------------------------------------------------------------
// Frames that come in
// ---------------------------------------------------------------------------

/// A frame of the gateway; `d` is the text of its data.
#[derive(Debug)]
pub struct GatewayFrame {
    pub op: u8,
    pub d: Option<String>,
    pub s: Option<u64>,
    pub t: Option<String>,
}

/// The data of a hello.
#[derive(Clone, Copy, Debug)]
pub struct Hello {
    pub heartbeat_interval: u64,
}

/// The data of a READY dispatch.
#[derive(Debug)]
pub struct Ready {
    pub session_id: String,
    pub resume_gateway_url: String,
    pub user: ReadyUser,
}

/// The bot, as a READY dispatch names it.
#[derive(Debug)]
pub struct ReadyUser {
    pub id: String,
}

/// The data of a MESSAGE_CREATE dispatch.
#[derive(Debug)]
pub struct MessageCreate {
    pub id: String,
    pub channel_id: String,
    pub guild_id: Option<String>,
    pub author: Author,
    pub content: String,
    pub mentions: Vec<MentionUser>,
    pub message_reference: Option<IncomingMessageReference>,
}

/// Who wrote a message.
#[derive(Debug)]
pub struct Author {
    pub id: String,
    pub username: Option<String>,
    pub global_name: Option<String>,
    pub bot: Option<bool>,
}

/// A user whom a message mentions.
#[derive(Debug)]
pub struct MentionUser {
    pub id: String,
}

/// The message to which a message replies.
#[derive(Debug)]
pub struct IncomingMessageReference {
    pub message_id: Option<String>,
}

// ---------------------------------------------------------------------------
// What goes out
// ---------------------------------------------------------------------------

/// Who may be notified by a message.
#[derive(Debug)]
pub struct AllowedMentions {
    pub parse: Vec<String>,
}

impl AllowedMentions {
    /// Nobody may be notified.
    pub fn none() -> (r: Self)
        ensures
            r.parse@.len() == 0,
    {
        AllowedMentions { parse: Vec::new() }
    }
}

/// The number of a sequence, where there is one.
pub open spec fn seq_view(last_seq: Option<u64>) -> json::JsonView {
    match last_seq {
        Some(n) => json::JsonView::Int(n as int),
        None => json::JsonView::Null,
    }
}

/// A heartbeat with the last sequence number.
pub open spec fn heartbeat_view(last_seq: Option<u64>) -> json::JsonView {
    json::no_members().with("d"@, seq_view(last_seq)).with("op"@, json::JsonView::Int(op::HEARTBEAT as int))
}

/// A heartbeat with the last sequence number.
pub fn build_heartbeat(last_seq: Option<u64>) -> (r: String)
    ensures
        r@ == json::json_text(heartbeat_view(last_seq)),
{
    let d = match last_seq {
        Some(n) => number(n),
        None => Json::Null,
    };
    write_json(&object().with("d", d).with("op", number(op::HEARTBEAT as u64)))
}

/// What the bot says of the machine that it runs on.
pub open spec fn properties_view() -> json::JsonView {
    json::no_members().text("browser"@, "aionui"@).text("device"@, "aionui"@).text("os"@, "linux"@)
}

/// The frame with which a bot opens a new session.
pub open spec fn identify_view(token: Seq<char>) -> json::JsonView {
    let d = json::no_members().with("intents"@, json::JsonView::Int(DISCORD_INTENTS as int)).with(
        "properties"@,
        properties_view(),
    ).text("token"@, token);
    json::no_members().with("d"@, d).with("op"@, json::JsonView::Int(op::IDENTIFY as int))
}

/// The frame with which a bot opens a new session.
pub fn build_identify(token: &str) -> (r: String)
    ensures
        r@ == json::json_text(identify_view(token@)),
{
    let properties = object().text("browser", "aionui").text("device", "aionui").text("os", "linux");
    let d = object().with("intents", number(DISCORD_INTENTS)).with("properties", properties).text("token", token);
    write_json(&object().with("d", d).with("op", number(op::IDENTIFY as u64)))
}

/// The frame with which a bot takes a session up again.
pub open spec fn resume_view(token: Seq<char>, session_id: Seq<char>, seq: u64) -> json::JsonView {
    let d = json::no_members().with("seq"@, json::JsonView::Int(seq as int)).text("session_id"@, session_id).text(
        "token"@,
        token,
    );
    json::no_members().with("d"@, d).with("op"@, json::JsonView::Int(op::RESUME as int))
}

/// The frame with which a bot takes a session up again.
pub fn build_resume(token: &str, session_id: &str, seq: u64) -> (r: String)
    ensures
        r@ == json::json_text(resume_view(token@, session_id@, seq)),
{
    let d = object().with("seq", number(seq)).text("session_id", session_id).text("token", token);
    write_json(&object().with("d", d).with("op", number(op::RESUME as u64)))
}

// ---------------------------------------------------------------------------
// Messages
// ---------------------------------------------------------------------------

/// The time that is part of an id, in milliseconds of the Unix clock; zero
/// where the text is no id.
pub open spec fn snowflake_time(id: Seq<char>) -> int {
    match text::unsigned_decimal(id) {
        Some(n) => if n <= u64::MAX {
            n / 0x40_0000 + DISCORD_EPOCH_MS
        } else {
            0
        },
        None => 0,
    }
}

/// The time that is part of an id.
pub fn snowflake_to_ms(id: &str) -> (r: i64)
    ensures
        r == snowflake_time(id@),
{
    match parse_u64(id) {
        Some(n) => {
            assert(n >> 22 == n / 0x40_0000) by (bit_vector);
            (n >> 22) as i64 + DISCORD_EPOCH_MS
        },
        None => 0,
    }
}

/// A text without the mentions of the bot and without white space at its ends.
pub open spec fn without_mention(s: Seq<char>, bot_user_id: Seq<char>) -> Seq<char> {
    if bot_user_id.len() == 0 {
        text::trimmed(s)
    } else {
        text::trimmed(
            text::replaced(
                text::replaced(s, "<@"@ + bot_user_id + ">"@, ""@),
                "<@!"@ + bot_user_id + ">"@,
                ""@,
            ),
        )
    }
}

/// A text without the mentions of the bot.
pub fn strip_bot_mention(s: &str, bot_user_id: &str) -> (r: String)
    ensures
        r@ == without_mention(s@, bot_user_id@),
{
    if bot_user_id.is_empty() {
        return trim(s);
    }
    let plain = cat3("<@", bot_user_id, ">");
    let nick = cat3("<@!", bot_user_id, ">");
    proof {
        reveal_strlit(">");
    }
    let once = replace(s, plain.as_str(), "");
    let twice = replace(once.as_str(), nick.as_str(), "");
    trim(twice.as_str())
}

/// Whether a message mentions the bot.
pub open spec fn mentions_bot(msg: MessageCreate, bot_user_id: Seq<char>) -> bool {
    bot_user_id.len() > 0 && exists|i: int|
        0 <= i < msg.mentions@.len() && (#[trigger] msg.mentions@[i]).id@ == bot_user_id
}

/// Whether a message is for the bot: not from a bot, and either direct or with
/// a mention of the bot.
pub open spec fn is_for_bot(msg: MessageCreate, bot_user_id: Seq<char>) -> bool {
    &&& msg.author.bot != Some(true)
    &&& bot_user_id.len() > 0 ==> msg.author.id@ != bot_user_id
    &&& msg.guild_id is None || mentions_bot(msg, bot_user_id)
}

/// The name of an author: the one for display, the one of the account or the id.
pub open spec fn author_name(author: Author) -> Seq<char> {
    match author.global_name {
        Some(name) => name@,
        None => match author.username {
            Some(name) => name@,
            None => author.id@,
        },
    }
}

/// The message that a message for the bot stands for.
pub open spec fn message_view(msg: MessageCreate, bot_user_id: Seq<char>) -> types::IncomingView {
    types::IncomingView {
        owner_user_id: None,
        id: msg.id@,
        platform: PluginType::Discord,
        chat_id: msg.channel_id@,
        user: types::UserView {
            id: msg.author.id@,
            username: types::opt_text(msg.author.username),
            display_name: author_name(msg.author),
            avatar_url: None,
        },
        content: types::ContentView {
            content_type: MessageContentType::Text,
            text: if mentions_bot(msg, bot_user_id) {
                without_mention(msg.content@, bot_user_id)
            } else {
                msg.content@
            },
            attachments: None,
        },
        timestamp: snowflake_time(msg.id@) as i64,
        reply_to_message_id: match msg.message_reference {
            Some(m) => types::opt_text(m.message_id),
            None => None,
        },
        action: None,
    }
}

fn any_mention(mentions: &Vec<MentionUser>, bot_user_id: &str) -> (r: bool)
    ensures
        r == exists|i: int| 0 <= i < mentions@.len() && (#[trigger] mentions@[i]).id@ == bot_user_id@,
{
    let mut i: usize = 0;
    while i < mentions.len()
        invariant
            i <= mentions.len(),
            forall|k: int| 0 <= k < i ==> (#[trigger] mentions@[k]).id@ != bot_user_id@,
        decreases mentions.len() - i,
    {
        if str_eq(mentions[i].id.as_str(), bot_user_id) {
            return true;
        }
        i += 1;
    }
    false
}

fn display_name(author: &Author) -> (r: String)
    ensures
        r@ == author_name(*author),
{
    match &author.global_name {
        Some(name) => name.clone(),
        None => match &author.username {
            Some(name) => name.clone(),
            None => author.id.clone(),
        },
    }
}

/// The message that a message for the bot stands for; nothing for any other
/// message.
pub fn message_to_unified(msg: &MessageCreate, bot_user_id: &str) -> (r: Option<UnifiedIncomingMessage>)
    ensures
        match r {
            Some(m) => is_for_bot(*msg, bot_user_id@) && m@ == message_view(*msg, bot_user_id@),
            None => !is_for_bot(*msg, bot_user_id@),
        },
{
    if let Some(bot) = msg.author.bot {
        if bot {
            return None;
        }
    }
    if !bot_user_id.is_empty() && str_eq(msg.author.id.as_str(), bot_user_id) {
        return None;
    }
    let is_mention = !bot_user_id.is_empty() && any_mention(&msg.mentions, bot_user_id);
    if msg.guild_id.is_some() && !is_mention {
        return None;
    }
    let content = if is_mention {
        strip_bot_mention(msg.content.as_str(), bot_user_id)
    } else {
        msg.content.clone()
    };
    Some(
        UnifiedIncomingMessage {
            owner_user_id: None,
            id: msg.id.clone(),
            platform: PluginType::Discord,
            chat_id: msg.channel_id.clone(),
            user: UnifiedUser {
                id: msg.author.id.clone(),
                username: copy_opt(&msg.author.username),
                display_name: display_name(&msg.author),
                avatar_url: None,
            },
            content: UnifiedMessageContent {
                content_type: MessageContentType::Text,
                text: content,
                attachments: None,
            },
            timestamp: snowflake_to_ms(msg.id.as_str()),
            reply_to_message_id: match &msg.message_reference {
                Some(m) => copy_opt(&m.message_id),
                None => None,
            },
            action: None,
        },
    )
}

/// What a bot wrote never reaches the agent, its own words included.
pub proof fn law_bots_are_ignored(msg: MessageCreate, bot_user_id: Seq<char>)
    requires
        msg.author.bot == Some(true) || (bot_user_id.len() > 0 && msg.author.id@ == bot_user_id),
    ensures
        !is_for_bot(msg, bot_user_id),
{
}

/// In a guild the bot hears only what mentions it.
pub proof fn law_guild_needs_mention(msg: MessageCreate, bot_user_id: Seq<char>)
    requires
        msg.guild_id is Some,
        is_for_bot(msg, bot_user_id),
    ensures
        mentions_bot(msg, bot_user_id),
{
}

/// A mention of the bot, by its id or by its name in the guild, is taken out of a text.
pub proof fn law_mention_is_taken_out(before: Seq<char>, after: Seq<char>, bot_user_id: Seq<char>)
    requires
        bot_user_id.len() > 0,
        bot_user_id[0] != '!',
        text::lacks_char(bot_user_id, '<'),
        text::lacks_char(before, '<'),
        text::lacks_char(after, '<'),
    ensures
        without_mention(before + ("<@"@ + bot_user_id + ">"@) + after, bot_user_id) == text::trimmed(before + after),
        without_mention(before + ("<@!"@ + bot_user_id + ">"@) + after, bot_user_id) == text::trimmed(before + after),
{
    reveal_strlit("<@");
    reveal_strlit("<@!");
    reveal_strlit(">");
    reveal_strlit("");
    let plain = "<@"@ + bot_user_id + ">"@;
    let nick = "<@!"@ + bot_user_id + ">"@;
    assert(plain[0] == '<' && nick[0] == '<' && plain[2] == bot_user_id[0] && nick[2] == '!');
    let all = before + after;
    assert(before + ""@ + after =~= all);
    text::law_replacing_changes_what_it_names(before, plain, after, ""@);
    text::law_replacing_changes_what_it_names(before, nick, after, ""@);
    assert forall|i: int| 0 <= i < all.len() implies #[trigger] all[i] != '<' by {
        if i < before.len() {
            assert(all[i] == before[i]);
        } else {
            assert(all[i] == after[i - before.len()]);
        }
    }
    text::law_replacing_changes_what_it_names(all, nick, all, ""@);
    let s = before + nick + after;
    let none = Seq::<char>::empty();
    let tail = nick.skip(1) + after;
    assert forall|i: int| 0 <= i < tail.len() implies #[trigger] tail[i] != '<' by {
        if i < 2 {
            assert(tail[i] == nick[i + 1]);
        } else if i < 2 + bot_user_id.len() {
            assert(tail[i] == nick[i + 1]);
            assert(nick[i + 1] == bot_user_id[i - 2]);
        } else if i == 2 + bot_user_id.len() {
            assert(tail[i] == nick[i + 1]);
            assert(nick[i + 1] == '>');
        } else {
            assert(tail[i] == after[i - 3 - bot_user_id.len()]);
        }
    }
    let from = nick + after;
    assert(s =~= before + from);
    text::lemma_replaced_behind(before, from, plain, ""@);
    if text::begins_with(from, plain) {
        assert(from.subrange(0, plain.len() as int)[2] == from[2]);
        assert(from[2] == '!');
    }
    assert(from.skip(1) =~= tail);
    text::law_replacing_changes_what_it_names(tail, plain, tail, ""@);
    assert(seq![from[0]] + tail =~= from);
    assert(text::replaced(s, plain, ""@) == before + from);
}

/// A message keeps its id, its channel, its author and what it replies to; the name of
/// the author is the one for display where there is one.
pub proof fn law_message_keeps_its_origin(msg: MessageCreate, bot_user_id: Seq<char>)
    ensures
        ({
            let m = message_view(msg, bot_user_id);
            &&& m.platform == PluginType::Discord
            &&& m.id == msg.id@
            &&& m.chat_id == msg.channel_id@
            &&& m.user.id == msg.author.id@
            &&& m.user.username == types::opt_text(msg.author.username)
            &&& msg.author.global_name is Some ==> m.user.display_name == msg.author.global_name->0@
            &&& msg.author.global_name is None && msg.author.username is Some ==> m.user.display_name
                == msg.author.username->0@
            &&& !mentions_bot(msg, bot_user_id) ==> m.content.text == msg.content@
            &&& msg.message_reference is None ==> m.reply_to_message_id is None
            &&& msg.message_reference is Some ==> m.reply_to_message_id == types::opt_text(
                msg.message_reference->0.message_id,
            )
            &&& m.action is None
        }),
{
}

/// An id tells the time at which it was made: its upper bits count the milliseconds since
/// the platform's own beginning, the first of January 2015.
pub proof fn law_id_tells_its_time(ms: nat, low: nat)
    requires
        low < 0x40_0000,
        ms * 0x40_0000 + low <= u64::MAX,
    ensures
        snowflake_time(text::nat_text(ms * 0x40_0000 + low)) == ms + 1_420_070_400_000,
{
    let n = ms * 0x40_0000 + low;
    text::law_decimal_is_read_back(n);
    assert(text::is_digit(text::nat_text(n)[0]));
    assert(n / 0x40_0000 == ms) by (nonlinear_arith)
        requires
            n == ms * 0x40_0000 + low,
            low < 0x40_0000,
    ;
}

/// A person is heard in a direct message, and in a guild where the bot is mentioned.
pub proof fn law_people_are_heard(msg: MessageCreate, bot_user_id: Seq<char>)
    requires
        msg.author.bot != Some(true),
        msg.author.id@ != bot_user_id,
    ensures
        msg.guild_id is None ==> is_for_bot(msg, bot_user_id),
        mentions_bot(msg, bot_user_id) ==> is_for_bot(msg, bot_user_id),
{
}

/// What opens a session, takes one up again or keeps it alive says so by its code, and
/// holds what it is about.
pub proof fn law_frames_say_what_they_are(token: Seq<char>, session_id: Seq<char>, seq: u64, last_seq: Option<u64>)
    ensures
        ({
            let beat = heartbeat_view(last_seq);
            &&& json::field(beat, "op"@) == Some(json::JsonView::Int(1))
            &&& last_seq is Some ==> json::field(beat, "d"@) == Some(json::JsonView::Int(last_seq->0 as int))
            &&& last_seq is None ==> json::field(beat, "d"@) == Some(json::JsonView::Null)
        }),
        ({
            let hello = identify_view(token);
            let d = json::field(hello, "d"@);
            &&& json::field(hello, "op"@) == Some(json::JsonView::Int(2))
            &&& d is Some
            &&& json::field(d->0, "token"@) == Some(json::JsonView::Text(token))
            &&& json::field(d->0, "intents"@) == Some(json::JsonView::Int(DISCORD_INTENTS as int))
        }),
        ({
            let again = resume_view(token, session_id, seq);
            let d = json::field(again, "d"@);
            &&& json::field(again, "op"@) == Some(json::JsonView::Int(6))
            &&& d is Some
            &&& json::field(d->0, "token"@) == Some(json::JsonView::Text(token))
            &&& json::field(d->0, "session_id"@) == Some(json::JsonView::Text(session_id))
            &&& json::field(d->0, "seq"@) == Some(json::JsonView::Int(seq as int))
        }),
{
    broadcast use json::group_fields;

    reveal_strlit("d");
    reveal_strlit("op");
    reveal_strlit("token");
    reveal_strlit("intents");
    reveal_strlit("properties");
    reveal_strlit("seq");
    reveal_strlit("session_id");
    assert("d"@.len() == 1 && "op"@.len() == 2 && "token"@.len() == 5 && "intents"@.len() == 7
        && "properties"@.len() == 10 && "seq"@.len() == 3 && "session_id"@.len() == 10
        && "properties"@[0] == 'p' && "session_id"@[0] == 's');
}

/// The bot does not hear itself or other bots, nor what is said in a guild without a mention
/// of it; a bot that does not know its own id hears everybody.
pub proof fn law_bots_are_not_heard(msg: MessageCreate, bot_user_id: Seq<char>)
    ensures
        msg.author.bot == Some(true) ==> !is_for_bot(msg, bot_user_id),
        bot_user_id.len() > 0 && msg.author.id@ == bot_user_id ==> !is_for_bot(msg, bot_user_id),
        msg.guild_id is Some && !mentions_bot(msg, bot_user_id) ==> !is_for_bot(msg, bot_user_id),
        bot_user_id.len() == 0 && msg.author.bot != Some(true) && msg.guild_id is None ==> is_for_bot(msg, bot_user_id),
{
}

/// What is no id tells no time.
pub proof fn law_other_texts_tell_no_time(id: Seq<char>)
    ensures
        text::unsigned_decimal(id) is None ==> snowflake_time(id) == 0,
        text::unsigned_decimal(id) matches Some(n) && n > u64::MAX ==> snowflake_time(id) == 0,
        id.len() == 0 ==> snowflake_time(id) == 0,
{
}

} // verus!
