//! Envelopes and events of Slack.
use vstd::prelude::*;
use vstd::string::*;

use crate::json;
use crate::json::{object, write_json};
use crate::text;
use crate::text::{cat, cat3, chars_of, find_char, matches_at, replace, split_once, str_eq, string_of, trim};
use crate::types;
use crate::types::{
    copy_opt, copy_or_empty, MessageContentType, PluginType, UnifiedIncomingMessage, UnifiedMessageContent,
    UnifiedUser,
};

verus! {

// ---------------------------------------------------------------------------
// What comes in
// ---------------------------------------------------------------------------

/// An envelope of the socket, with the callback that it carries.
#[derive(Debug)]
pub struct SocketEnvelope {
    pub envelope_type: String,
    pub envelope_id: Option<String>,
    pub payload: Option<EventCallback>,
    pub reason: Option<String>,
}

/// The callback of an event.
#[derive(Debug)]
pub struct EventCallback {
    pub event: Option<SlackEvent>,
    pub event_id: Option<String>,
}

/// An event.
#[derive(Debug)]
pub struct SlackEvent {
    pub event_type: String,
    pub user: Option<String>,
    pub text: Option<String>,
    pub ts: Option<String>,
    pub channel: Option<String>,
    pub channel_type: Option<String>,
    pub thread_ts: Option<String>,
    pub bot_id: Option<String>,
    pub subtype: Option<String>,
    pub client_msg_id: Option<String>,
}

/// The answer to an envelope.
pub open spec fn ack_view(envelope_id: Seq<char>) -> json::JsonView {
    json::no_members().text("envelope_id"@, envelope_id)
}

/// The answer to an envelope.
pub fn build_ack(envelope_id: &str) -> (r: String)
    ensures
        r@ == json::json_text(ack_view(envelope_id@)),
{
    write_json(&object().text("envelope_id", envelope_id))
}

// ---------------------------------------------------------------------------
// Times
// ---------------------------------------------------------------------------

/// The digits of a number before its point where the point stands `place` digits
/// from the left of `digits`: zeros where `digits` ends before the point.
pub open spec fn before_point(digits: Seq<char>, place: int) -> Seq<char> {
    Seq::new(
        if place > 0 {
            place as nat
        } else {
            0
        },
        |i: int|
            if i < digits.len() {
                digits[i]
            } else {
                '0'
            },
    )
}

/// The digits of `digits`, `digits.digits`, `digits.` or `.digits`, and the place
/// of the point among them.
pub open spec fn fixed_point(s: Seq<char>) -> Option<(Seq<char>, nat)> {
    match text::split_once_at(s, '.') {
        None => if s.len() > 0 && text::all_digits(s) {
            Some((s, s.len()))
        } else {
            None
        },
        Some((whole, fraction)) => if text::all_digits(whole + fraction) && whole.len() + fraction.len() > 0 {
            Some((whole + fraction, whole.len()))
        } else {
            None
        },
    }
}

/// What stands before and behind the letter in front of an exponent.
pub open spec fn split_exponent(s: Seq<char>) -> Option<(Seq<char>, Seq<char>)> {
    match text::split_once_at(s, 'e') {
        Some(p) => Some(p),
        None => text::split_once_at(s, 'E'),
    }
}

/// The milliseconds of seconds in fixed point notation, with a power of ten behind
/// it or none; parts of a millisecond are dropped.
pub open spec fn decimal_ms(s: Seq<char>) -> Option<nat> {
    let (mantissa, exponent) = match split_exponent(s) {
        Some((m, e)) => (m, text::signed_decimal(e)),
        None => (s, Some(0)),
    };
    match (fixed_point(mantissa), exponent) {
        (Some((digits, place)), Some(e)) => Some(text::digits_value(before_point(digits, place + e + 3))),
        _ => None,
    }
}

/// A number in the range of `i64`, or the end of the range that is nearest.
pub open spec fn clamped(n: int) -> int {
    if n > i64::MAX {
        i64::MAX as int
    } else if n < i64::MIN {
        i64::MIN as int
    } else {
        n
    }
}

/// Whether `s` is the lower-case word `word`, in whatever case.
pub open spec fn is_word(s: Seq<char>, word: Seq<char>) -> bool {
    &&& s.len() == word.len()
    &&& forall|i: int|
        0 <= i < s.len() ==> (#[trigger] s[i]) == word[i] || s[i] as u32 + 32 == word[i] as u32
}

/// The time of a stamp of seconds and a fraction, in milliseconds; zero where
/// the text is no number.
pub open spec fn ts_ms(ts: Seq<char>) -> int {
    let signed = ts.len() > 0 && (ts[0] == '-' || ts[0] == '+');
    let negative = signed && ts[0] == '-';
    let body = if signed {
        ts.skip(1)
    } else {
        ts
    };
    if is_word(body, "inf"@) || is_word(body, "infinity"@) {
        if negative {
            i64::MIN as int
        } else {
            i64::MAX as int
        }
    } else {
        match decimal_ms(body) {
            Some(n) => clamped(
                if negative {
                    -n
                } else {
                    n as int
                },
            ),
            None => 0,
        }
    }
}

/// Where exponents are cut off: beyond it they make no difference.
const EXPONENT_CAP: u128 = 1_000_000_000_000_000_000_000_000_000_000;

/// Above every number of milliseconds within range.
const MS_CAP: u128 = 10_000_000_000_000_000_000;

/// The smaller of a number and a bound.
spec fn capped(n: nat, bound: u128) -> nat {
    if n < bound {
        n
    } else {
        bound as nat
    }
}

fn digits_only(v: &Vec<char>) -> (r: bool)
    ensures
        r == text::all_digits(v@),
{
    let mut i: usize = 0;
    while i < v.len()
        invariant
            i <= v.len(),
            forall|k: int| 0 <= k < i ==> text::is_digit(#[trigger] v@[k]),
        decreases v.len() - i,
    {
        if v[i] < '0' || '9' < v[i] {
            assert(!text::is_digit(v@[i as int]));
            return false;
        }
        i += 1;
    }
    true
}

fn word_eq(s: &str, word: &str) -> (r: bool)
    ensures
        r == is_word(s@, word@),
{
    let v = chars_of(s);
    let w = chars_of(word);
    if v.len() != w.len() {
        return false;
    }
    let mut i: usize = 0;
    while i < v.len()
        invariant
            i <= v.len(),
            v.len() == w.len(),
            v@ == s@,
            w@ == word@,
            forall|k: int| 0 <= k < i ==> (#[trigger] v@[k]) == w@[k] || v@[k] as u32 + 32 == w@[k] as u32,
        decreases v.len() - i,
    {
        let c: char = v[i];
        if c != w[i] && !(w[i] as u32 >= 32 && c as u32 == w[i] as u32 - 32) {
            assert(!(s@[i as int] == word@[i as int] || s@[i as int] as u32 + 32 == word@[i as int] as u32));
            return false;
        }
        i += 1;
    }
    true
}

/// The value of a text of digits, cut off at a bound.
fn read_capped(s: &str) -> (r: Option<u128>)
    ensures
        match text::decimal(s@) {
            Some(n) => r matches Some(m) && m == capped(n, EXPONENT_CAP),
            None => r is None,
        },
{
    let v = chars_of(s);
    if v.len() == 0 || !digits_only(&v) {
        return None;
    }
    let mut n: u128 = 0;
    let mut i: usize = 0;
    while i < v.len()
        invariant
            i <= v.len(),
            text::all_digits(v@),
            n == capped(text::digits_value(v@.take(i as int)), EXPONENT_CAP),
        decreases v.len() - i,
    {
        assert(text::is_digit(v@[i as int]));
        let d: u128 = (v[i] as u32 - '0' as u32) as u128;
        assert(v@.take(i + 1).drop_last() =~= v@.take(i as int));
        n = n * 10 + d;
        if n > EXPONENT_CAP {
            n = EXPONENT_CAP;
        }
        i += 1;
    }
    assert(v@.take(v@.len() as int) =~= s@);
    Some(n)
}

/// An exponent, cut off at a bound on both sides.
fn read_exponent(s: &str) -> (r: Option<i128>)
    ensures
        match text::signed_decimal(s@) {
            Some(e) => r matches Some(m) && (if e >= 0 {
                m == capped(e as nat, EXPONENT_CAP)
            } else {
                m == -capped((-e) as nat, EXPONENT_CAP)
            }),
            None => r is None,
        },
{
    let v = chars_of(s);
    if v.len() > 0 && (v[0] == '-' || v[0] == '+') {
        let rest = string_of(&v, 1, v.len());
        assert(rest@ =~= s@.skip(1));
        match read_capped(rest.as_str()) {
            Some(n) => if v[0] == '-' {
                Some(-(n as i128))
            } else {
                Some(n as i128)
            },
            None => None,
        }
    } else {
        match read_capped(s) {
            Some(n) => Some(n as i128),
            None => None,
        }
    }
}

/// Moving the point to the right never makes a number smaller; behind the last
/// digit zero stays zero and anything else grows.
proof fn lemma_point_moves(digits: Seq<char>, from: int, to: int)
    requires
        text::all_digits(digits),
        0 <= from <= to,
    ensures
        text::digits_value(before_point(digits, from)) <= text::digits_value(before_point(digits, to)),
        from >= digits.len() ==> ({
            let n = text::digits_value(before_point(digits, from));
            let m = text::digits_value(before_point(digits, to));
            (n == 0 ==> m == 0) && (n > 0 ==> m > to - from)
        }),
    decreases to - from,
{
    if from < to {
        lemma_point_moves(digits, from, to - 1);
        assert(before_point(digits, to).drop_last() =~= before_point(digits, to - 1));
    }
}

/// The digits before the point as a number, cut off at a bound.
fn capped_ms(digits: &Vec<char>, place: i128) -> (r: u128)
    requires
        text::all_digits(digits@),
    ensures
        r == capped(text::digits_value(before_point(digits@, place as int)), MS_CAP),
{
    let mut n: u128 = 0;
    let mut i: i128 = 0;
    if place <= 0 {
        return 0;
    }
    while i < place
        invariant
            0 <= i <= place,
            text::all_digits(digits@),
            n == text::digits_value(before_point(digits@, i as int)),
            n < MS_CAP,
        decreases place - i,
    {
        let d: u128 = if i < digits.len() as i128 {
            assert(text::is_digit(digits@[i as int]));
            (digits[i as usize] as u32 - '0' as u32) as u128
        } else {
            0
        };
        proof {
            assert(before_point(digits@, i + 1).drop_last() =~= before_point(digits@, i as int));
            lemma_point_moves(digits@, i + 1, place as int);
            lemma_point_moves(digits@, i as int, place as int);
        }
        if n == 0 && i >= digits.len() as i128 {
            return 0;
        }
        n = n * 10 + d;
        if n >= MS_CAP {
            return MS_CAP;
        }
        i += 1;
    }
    n
}

fn read_fixed_point(s: &str) -> (r: Option<(Vec<char>, usize)>)
    ensures
        match fixed_point(s@) {
            Some((digits, place)) => r matches Some(p) && p.0@ == digits && p.1 == place && text::all_digits(digits),
            None => r is None,
        },
{
    match split_once(s, '.') {
        None => {
            let v = chars_of(s);
            let n: usize = v.len();
            if n > 0 && digits_only(&v) {
                Some((v, n))
            } else {
                None
            }
        },
        Some((whole, fraction)) => {
            let n: usize = chars_of(whole.as_str()).len();
            let v = chars_of(cat(whole.as_str(), fraction.as_str()).as_str());
            if v.len() > 0 && digits_only(&v) {
                Some((v, n))
            } else {
                None
            }
        },
    }
}

fn read_decimal_ms(s: &str) -> (r: Option<u128>)
    ensures
        match decimal_ms(s@) {
            Some(n) => r matches Some(m) && m == capped(n, MS_CAP),
            None => r is None,
        },
{
    let parts = match split_once(s, 'e') {
        Some(p) => Some(p),
        None => split_once(s, 'E'),
    };
    let (mantissa, exponent) = match parts {
        Some((m, e)) => (m, read_exponent(e.as_str())),
        None => (s.to_owned(), Some(0i128)),
    };
    match (read_fixed_point(mantissa.as_str()), exponent) {
        (Some((digits, place)), Some(e)) => {
            let point: i128 = place as i128 + e + 3;
            proof {
                let (m, x) = match split_exponent(s@) {
                    Some((m, x)) => (m, text::signed_decimal(x)),
                    None => (s@, Some(0)),
                };
                let wanted = place + x->0 + 3;
                if wanted > point {
                    assert(digits.len() <= usize::MAX < EXPONENT_CAP - MS_CAP);
                    lemma_point_moves(digits@, digits@.len() as int, point as int);
                    lemma_point_moves(digits@, digits@.len() as int, wanted);
                }
            }
            Some(capped_ms(&digits, point))
        },
        _ => None,
    }
}

/// The time of a stamp of seconds and a fraction, in milliseconds. The digits are
/// read as they stand, without rounding.
pub fn parse_ts_to_ms(ts: &str) -> (r: i64)
    ensures
        r == ts_ms(ts@),
{
    let v = chars_of(ts);
    let negative = v.len() > 0 && v[0] == '-';
    let from: usize = if v.len() > 0 && (v[0] == '-' || v[0] == '+') {
        1
    } else {
        0
    };
    let body = string_of(&v, from, v.len());
    assert(v@.skip(0) =~= ts@);
    assert(body@ =~= v@.skip(from as int));
    let out_of_range: i64 = if negative {
        i64::MIN
    } else {
        i64::MAX
    };
    if word_eq(body.as_str(), "inf") || word_eq(body.as_str(), "infinity") {
        return out_of_range;
    }
    match read_decimal_ms(body.as_str()) {
        None => 0,
        Some(n) => if n <= 0x7fff_ffff_ffff_ffff {
            if negative {
                -(n as i64)
            } else {
                n as i64
            }
        } else {
            out_of_range
        },
    }
}

/// Three digits behind others.
proof fn lemma_three_digits(digits: Seq<char>, n: int)
    requires
        text::all_digits(digits),
        digits.len() == n + 3,
        n >= 0,
    ensures
        text::digits_value(digits) / 1000 == text::digits_value(digits.take(n)),
        text::digits_value(digits) == text::digits_value(digits.take(n)) * 1000 + text::digits_value(digits.skip(n)),
        text::digits_value(digits.skip(n)) < 1000,
{
    reveal_with_fuel(text::digits_value, 4);
    let a = digits.drop_last();
    let b = a.drop_last();
    let c = b.drop_last();
    assert(c =~= digits.take(n));
    assert(text::is_digit(digits[n]) && text::is_digit(digits[n + 1]) && text::is_digit(digits[n + 2]));
    assert(digits.last() == digits[n + 2] && a.last() == digits[n + 1] && b.last() == digits[n]);
    let t = digits.skip(n);
    let u = t.drop_last();
    let v = u.drop_last();
    assert(t.last() == digits[n + 2] && u.last() == digits[n + 1] && v.last() == digits[n]);
    assert(v.drop_last().len() == 0);
}

/// A stamp of seconds and six digits of microseconds is the time of both,
/// whole milliseconds of it.
pub proof fn law_stamp_is_its_time(seconds: Seq<char>, micros: Seq<char>)
    requires
        seconds.len() > 0,
        text::all_digits(seconds),
        micros.len() == 6,
        text::all_digits(micros),
    ensures
        ts_ms(seconds + "."@ + micros) == clamped(
            text::digits_value(seconds) * 1000 + text::digits_value(micros) as int / 1000,
        ),
{
    reveal_strlit(".");
    reveal_strlit("inf");
    reveal_strlit("infinity");
    let ts = seconds + "."@ + micros;
    let n = seconds.len() as int;
    assert(text::is_digit(seconds[0]));
    assert(ts[0] == seconds[0]);
    assert("inf"@[0] == 'i' && "infinity"@[0] == 'i');
    assert forall|i: int| 0 <= i < ts.len() implies i == n || text::is_digit(#[trigger] ts[i]) by {
        if i < n {
            assert(text::is_digit(seconds[i]));
        } else if i > n {
            assert(ts[i] == micros[i - n - 1]);
        }
    }
    assert(ts[n] == '.');
    text::lemma_index_unique(ts, 'e', ts.len() as int);
    text::lemma_index_unique(ts, 'E', ts.len() as int);
    text::lemma_index_unique(ts, '.', n);
    assert(ts.take(n) =~= seconds);
    assert(ts.skip(n + 1) =~= micros);
    let all = seconds + micros;
    assert(text::all_digits(all));
    let kept = before_point(all, n + 3);
    assert(kept =~= seconds + micros.take(3));
    assert(text::all_digits(kept));
    lemma_three_digits(kept, n);
    assert(kept.take(n) =~= seconds);
    assert(kept.skip(n) =~= micros.take(3));
    lemma_three_digits(micros, 3);
}

// ---------------------------------------------------------------------------
// Mentions
// ---------------------------------------------------------------------------

/// A text without the mention that it begins with, where one stands there: from
/// `open` to the first `>`.
pub open spec fn without_leading(s: Seq<char>, open: Seq<char>) -> Seq<char> {
    let rest = s.skip(open.len() as int);
    let close = text::index_of_char(rest, '>') as int;
    if text::begins_with(s, open) && close < rest.len() {
        rest.skip(close + 1)
    } else {
        s
    }
}

/// A text without the mentions `<@id>` of the bot and without a mention
/// `<@id|name>` that it begins with; others of that form lose the id. There is no
/// white space at the ends.
pub open spec fn without_mention(s: Seq<char>, bot_user_id: Seq<char>) -> Seq<char> {
    if bot_user_id.len() == 0 {
        text::trimmed(s)
    } else {
        let open = "<@"@ + bot_user_id + "|"@;
        let unnamed = text::trimmed(text::replaced(s, "<@"@ + bot_user_id + ">"@, ""@));
        text::trimmed(text::replaced(without_leading(unnamed, open), open, "<@|"@))
    }
}

fn strip_leading(s: &str, open: &str) -> (r: String)
    ensures
        r@ == without_leading(s@, open@),
{
    let v = chars_of(s);
    let p = chars_of(open);
    if matches_at(&v, &p, 0) {
        assert(v@.subrange(0, open@.len() as int) =~= s@.subrange(0, open@.len() as int));
        let close: usize = find_char(&v, p.len(), '>');
        if close < v.len() {
            let r = string_of(&v, close + 1, v.len());
            assert(r@ =~= s@.skip(open@.len() as int).skip(close - open@.len() + 1));
            return r;
        }
    }
    s.to_owned()
}

/// A text without the mention of the bot.
pub fn strip_bot_mention(s: &str, bot_user_id: &str) -> (r: String)
    ensures
        r@ == without_mention(s@, bot_user_id@),
{
    if bot_user_id.is_empty() {
        return trim(s);
    }
    let plain = cat3("<@", bot_user_id, ">");
    let open = cat3("<@", bot_user_id, "|");
    proof {
        reveal_strlit("<@");
    }
    let unnamed = trim(replace(s, plain.as_str(), "").as_str());
    let rest = strip_leading(unnamed.as_str(), open.as_str());
    trim(replace(rest.as_str(), open.as_str(), "<@|").as_str())
}

// ---------------------------------------------------------------------------
// Events
// ---------------------------------------------------------------------------

/// Whether an event comes from a direct conversation.
pub open spec fn is_direct(event: SlackEvent) -> bool {
    ||| types::opt_text(event.channel_type) == Some("im"@)
    ||| event.channel matches Some(c) && c@.len() > 0 && c@[0] == 'D'
}

/// Whether an event is for the bot: not from a bot, in a channel, and either a
/// mention or a plain direct message.
pub open spec fn is_for_bot(event: SlackEvent, bot_user_id: Seq<char>) -> bool {
    &&& event.bot_id is None
    &&& bot_user_id.len() > 0 ==> types::opt_text(event.user) != Some(bot_user_id)
    &&& event.event_type@ == "app_mention"@ || (event.event_type@ == "message"@ && event.subtype is None && is_direct(
        event,
    ))
    &&& event.channel is Some
}

/// The message that an event for the bot stands for.
pub open spec fn event_view(event: SlackEvent, bot_user_id: Seq<char>) -> types::IncomingView {
    let user = types::text_or_empty(types::opt_text(event.user));
    let ts = types::text_or_empty(types::opt_text(event.ts));
    let raw = types::text_or_empty(types::opt_text(event.text));
    types::IncomingView {
        owner_user_id: None,
        id: match types::nonempty(types::opt_text(event.client_msg_id)) {
            Some(id) => id,
            None => ts,
        },
        platform: PluginType::Slack,
        chat_id: types::text_or_empty(types::opt_text(event.channel)),
        user: types::UserView { id: user, username: None, display_name: user, avatar_url: None },
        content: types::ContentView {
            content_type: MessageContentType::Text,
            text: if event.event_type@ == "app_mention"@ {
                without_mention(raw, bot_user_id)
            } else {
                raw
            },
            attachments: None,
        },
        timestamp: ts_ms(ts) as i64,
        reply_to_message_id: types::opt_text(event.thread_ts),
        action: None,
    }
}

fn direct(event: &SlackEvent) -> (r: bool)
    ensures
        r == is_direct(*event),
{
    if let Some(kind) = &event.channel_type {
        if str_eq(kind.as_str(), "im") {
            return true;
        }
    }
    match &event.channel {
        Some(c) => {
            let v = chars_of(c.as_str());
            v.len() > 0 && v[0] == 'D'
        },
        None => false,
    }
}

/// The message that an event for the bot stands for; nothing for any other
/// event.
pub fn event_to_unified(event: &SlackEvent, bot_user_id: &str) -> (r: Option<UnifiedIncomingMessage>)
    ensures
        match r {
            Some(m) => is_for_bot(*event, bot_user_id@) && m@ == event_view(*event, bot_user_id@),
            None => !is_for_bot(*event, bot_user_id@),
        },
{
    if event.bot_id.is_some() {
        return None;
    }
    if let Some(user) = &event.user {
        if !bot_user_id.is_empty() && str_eq(user.as_str(), bot_user_id) {
            return None;
        }
    }
    let mention = str_eq(event.event_type.as_str(), "app_mention");
    if !mention {
        if !str_eq(event.event_type.as_str(), "message") || event.subtype.is_some() || !direct(event) {
            return None;
        }
    }
    let chat_id = match &event.channel {
        Some(c) => c.clone(),
        None => {
            return None;
        },
    };
    let ts = copy_or_empty(&event.ts);
    let raw = copy_or_empty(&event.text);
    let content = if mention {
        strip_bot_mention(raw.as_str(), bot_user_id)
    } else {
        raw
    };
    let id = match types::copy_nonempty(&event.client_msg_id) {
        Some(id) => id,
        None => ts.clone(),
    };
    Some(
        UnifiedIncomingMessage {
            owner_user_id: None,
            id,
            platform: PluginType::Slack,
            chat_id,
            user: UnifiedUser {
                id: copy_or_empty(&event.user),
                username: None,
                display_name: copy_or_empty(&event.user),
                avatar_url: None,
            },
            content: UnifiedMessageContent {
                content_type: MessageContentType::Text,
                text: content,
                attachments: None,
            },
            timestamp: parse_ts_to_ms(ts.as_str()),
            reply_to_message_id: copy_opt(&event.thread_ts),
            action: None,
        },
    )
}

// ---------------------------------------------------------------------------
// Laws
// ---------------------------------------------------------------------------

/// What a bot wrote never reaches the agent, its own words included.
pub proof fn law_bots_are_ignored(event: SlackEvent, bot_user_id: Seq<char>)
    requires
        event.bot_id is Some || (bot_user_id.len() > 0 && types::opt_text(event.user) == Some(bot_user_id)),
    ensures
        !is_for_bot(event, bot_user_id),
{
}

/// A message in a channel that is not direct reaches the agent only as a
/// mention.
pub proof fn law_channels_need_a_mention(event: SlackEvent, bot_user_id: Seq<char>)
    requires
        !is_direct(event),
        is_for_bot(event, bot_user_id),
    ensures
        event.event_type@ == "app_mention"@,
{
}

/// A plain mention of the bot is taken out of a text.
pub proof fn law_plain_mention_is_taken_out(before: Seq<char>, after: Seq<char>, bot_user_id: Seq<char>)
    requires
        bot_user_id.len() > 0,
        text::lacks_char(before, '<'),
        text::lacks_char(after, '<'),
    ensures
        without_mention(before + ("<@"@ + bot_user_id + ">"@) + after, bot_user_id) == text::trimmed(before + after),
{
    reveal_strlit("<@");
    reveal_strlit("");
    assert("<@"@[0] == '<');
    let plain = "<@"@ + bot_user_id + ">"@;
    let open = "<@"@ + bot_user_id + "|"@;
    assert(plain[0] == '<' && open[0] == '<');
    text::law_replacing_changes_what_it_names(before, plain, after, ""@);
    assert(before + ""@ + after =~= before + after);
    let all = before + after;
    assert forall|i: int| 0 <= i < all.len() implies #[trigger] all[i] != '<' by {
        if i < before.len() {
            assert(all[i] == before[i]);
        } else {
            assert(all[i] == after[i - before.len()]);
        }
    }
    let t = text::trimmed(all);
    text::lemma_trimmed_lacks(all, '<');
    if text::begins_with(t, open) {
        assert(t.subrange(0, open.len() as int)[0] == t[0]);
    }
    assert(without_leading(t, open) == t);
    text::law_replacing_changes_what_it_names(t, open, t, "<@|"@);
    text::lemma_trim_is_stable(all);
}

/// A mention of the bot with a name is taken off the beginning of a text.
pub proof fn law_leading_mention_is_taken_off(name: Seq<char>, after: Seq<char>, bot_user_id: Seq<char>)
    requires
        bot_user_id.len() > 0,
        text::lacks_char(bot_user_id, '<'),
        text::lacks_char(bot_user_id, '>'),
        text::lacks_char(name, '<'),
        text::lacks_char(name, '>'),
        text::lacks_char(after, '<'),
        after.len() > 0,
        !text::is_space(after.last()),
    ensures
        without_mention("<@"@ + bot_user_id + "|"@ + name + ">"@ + after, bot_user_id) == text::trimmed(after),
{
    reveal_strlit("<@");
    reveal_strlit("|");
    reveal_strlit(">");
    reveal_strlit("");
    let plain = "<@"@ + bot_user_id + ">"@;
    let open = "<@"@ + bot_user_id + "|"@;
    let none = Seq::<char>::empty();
    let s = open + name + ">"@ + after;
    let tail = s.skip(1);
    assert(s =~= "<@"@ + bot_user_id + "|"@ + name + ">"@ + after);
    assert(plain[0] == '<');
    assert forall|i: int| 0 <= i < tail.len() implies #[trigger] tail[i] != '<' by {
        let k = i + 1;
        assert(tail[i] == s[k]);
        if k < 2 {
            assert(s[k] == '@');
        } else if k < 2 + bot_user_id.len() {
            assert(s[k] == bot_user_id[k - 2]);
        } else if k == 2 + bot_user_id.len() {
            assert(s[k] == '|');
        } else if k < open.len() + name.len() {
            assert(s[k] == name[k - open.len()]);
        } else if k == open.len() + name.len() {
            assert(s[k] == '>');
        } else {
            assert(s[k] == after[k - open.len() - name.len() - 1]);
        }
    }
    if text::begins_with(s, plain) {
        let at = plain.len() - 1;
        assert(s.subrange(0, plain.len() as int)[at] == s[at]);
        assert(s[at] == '|');
    }
    text::law_replacing_changes_what_it_names(tail, plain, tail, ""@);
    assert(text::replaced(s, plain, ""@) == seq![s[0]] + text::replaced(tail, plain, ""@));
    assert(seq![s[0]] + tail =~= s);
    assert(none + s + none =~= s);
    assert(s[0] == '<');
    assert(s.last() == after.last());
    text::law_trimming_takes_the_space_off(none, s, none);
    assert(s.subrange(0, open.len() as int) =~= open);
    let rest = name + ">"@ + after;
    assert(s.skip(open.len() as int) =~= rest);
    assert forall|i: int| 0 <= i < name.len() implies rest[i] != '>' by {
        assert(rest[i] == name[i]);
    }
    text::lemma_index_unique(rest, '>', name.len() as int);
    assert(rest.skip(name.len() as int + 1) =~= after);
    assert(without_leading(s, open) == after);
    assert(open[0] == '<');
    text::law_replacing_changes_what_it_names(after, open, after, "<@|"@);
}

/// A message keeps its channel, its sender and its thread; its id is the one that the
/// client gave it, or else its stamp.
pub proof fn law_message_keeps_its_origin(event: SlackEvent, bot_user_id: Seq<char>)
    ensures
        ({
            let m = event_view(event, bot_user_id);
            &&& m.platform == PluginType::Slack
            &&& event.channel is Some ==> m.chat_id == event.channel->0@
            &&& event.user is Some ==> m.user.id == event.user->0@
            &&& m.reply_to_message_id == types::opt_text(event.thread_ts)
            &&& event.client_msg_id is Some && event.client_msg_id->0@.len() > 0 ==> m.id == event.client_msg_id->0@
            &&& event.client_msg_id is None && event.ts is Some ==> m.id == event.ts->0@
            &&& event.ts is Some ==> m.timestamp == ts_ms(event.ts->0@)
            &&& event.text is Some && event.event_type@ != "app_mention"@ ==> m.content.text == event.text->0@
            &&& m.action is None
        }),
{
}

/// A direct message and a mention reach the bot, unless a bot wrote them.
pub proof fn law_people_are_heard(event: SlackEvent, bot_user_id: Seq<char>)
    requires
        event.bot_id is None,
        event.user matches Some(u) && u@ != bot_user_id,
        event.channel is Some,
    ensures
        event.event_type@ == "app_mention"@ ==> is_for_bot(event, bot_user_id),
        event.event_type@ == "message"@ && event.subtype is None && (event.channel_type matches Some(t) && t@ == "im"@)
            ==> is_for_bot(event, bot_user_id),
        event.event_type@ == "message"@ && event.subtype is Some ==> !is_for_bot(event, bot_user_id),
{
    reveal_strlit("app_mention");
    reveal_strlit("message");
    assert("app_mention"@.len() == 11 && "message"@.len() == 7);
}

/// The bot does not hear itself or other bots, nor what is neither a mention nor a direct
/// message; a bot that does not know its own name hears everybody.
pub proof fn law_bots_are_not_heard(event: SlackEvent, bot_user_id: Seq<char>)
    ensures
        event.bot_id is Some ==> !is_for_bot(event, bot_user_id),
        bot_user_id.len() > 0 && (event.user matches Some(u) && u@ == bot_user_id) ==> !is_for_bot(event, bot_user_id),
        event.event_type@ != "app_mention"@ && event.event_type@ != "message"@ ==> !is_for_bot(event, bot_user_id),
        event.channel is None ==> !is_for_bot(event, bot_user_id),
        event.event_type@ == "message"@ && !is_direct(event) ==> !is_for_bot(event, bot_user_id),
        event.event_type@ == "app_mention"@ && event.bot_id is None && event.channel is Some && bot_user_id.len() == 0
            ==> is_for_bot(event, bot_user_id),
        (event.channel matches Some(c) && c@.len() > 0 && c@[0] == 'D') ==> is_direct(event),
{
    reveal_strlit("app_mention");
    reveal_strlit("message");
    assert("app_mention"@.len() == 11 && "message"@.len() == 7);
}

/// A bot that does not know its own name takes no mention out.
pub proof fn law_nameless_bot_takes_nothing_out(s: Seq<char>)
    ensures
        without_mention(s, Seq::empty()) == text::trimmed(s),
{
}

/// A time out of range is the end of the range that is nearest, and any other stays.
pub proof fn law_times_stay_in_range(n: int)
    ensures
        i64::MIN <= n <= i64::MAX ==> clamped(n) == n,
        n > i64::MAX ==> clamped(n) == i64::MAX,
        n < i64::MIN ==> clamped(n) == i64::MIN,
{
}

/// An exponent stands behind the first letter in front of it, small or large.
pub proof fn law_exponent_stands_behind_its_letter(mantissa: Seq<char>, exponent: Seq<char>)
    requires
        text::lacks_char(mantissa, 'e'),
        text::lacks_char(mantissa, 'E'),
        text::lacks_char(exponent, 'e'),
    ensures
        split_exponent(mantissa + seq!['e'] + exponent) == Some((mantissa, exponent)),
        split_exponent(mantissa + seq!['E'] + exponent) == Some((mantissa, exponent)),
        split_exponent(mantissa) is None,
{
    text::law_parting_is_at_the_first_place(mantissa, 'e', exponent);
    text::law_parting_is_at_the_first_place(mantissa, 'E', exponent);
    let s = mantissa + seq!['E'] + exponent;
    assert forall|i: int| 0 <= i < s.len() implies #[trigger] s[i] != 'e' by {
        if i < mantissa.len() {
            assert(s[i] == mantissa[i]);
        } else if i > mantissa.len() {
            assert(s[i] == exponent[i - mantissa.len() - 1]);
        }
    }
    text::law_parting_is_at_the_first_place(s, 'e', exponent);
}

} // verus!
