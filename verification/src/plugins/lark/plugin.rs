//! The Lark plugin: its connection, the events that come in and the cards that
//! go out.
use vstd::prelude::*;
use vstd::string::*;
use vstd::utf8::*;

use super::api;
use super::api::{BotInfoData, LarkApi};
use super::frame;
use super::frame::{
    build_ack_frame, build_ping_frame, decode_frame, encode_frame, get_header, PbFrame, METHOD_CONTROL, METHOD_DATA,
};
use super::types as wire;
use super::types::{
    build_interactive_card, parse_lark_callback, BotMenuEvent, CardActionEvent, Mention, MessageEvent,
};
use super::ws_session;
use super::ws_session::{parse_pong_config, FragmentCache, PongPayload};
use crate::error;
use crate::error::ChannelError;
use crate::json;
use crate::json::{as_text, find_member, parse_node, parse_opt, JsonNode};
use crate::plugins::callback;
use crate::plugins::callback::{confirmation, trigger_action};
use crate::plugins::dedup;
use crate::plugins::dedup::DedupCache;
use crate::plugins::http;
use crate::plugins::http::HttpRequest;
use crate::plugins::lifecycle;
use crate::plugins::lifecycle::PluginState;
use crate::plugins::time;
use crate::plugins::time::seconds_of;
use crate::text;
use crate::text::{
    cat, cat3, i64_text, parse_i64, parse_usize, replace, split, split_once, starts_with, str_eq, string_from_utf8,
    trim, truncate_message,
};
use crate::types;
use crate::types::{
    copy_nonempty, copy_opt, copy_or_empty, ActionContext, BotInfo, MessageContentType, PluginCredentials, PluginType,
    UnifiedAttachment, UnifiedIncomingMessage, UnifiedMessageContent, UnifiedOutgoingMessage, UnifiedUser,
};

verus! {

/// How long fragments of a message are kept, in milliseconds.
pub const FRAGMENT_TTL_MS: u64 = 300_000;

// ---------------------------------------------------------------------------
// The address of the connection
// ---------------------------------------------------------------------------

/// The query of an address: what stands between its first and its second `?`.
pub open spec fn query_of(url: Seq<char>) -> Seq<char> {
    let parts = text::split_at_char(url, '?');
    if parts.len() > 1 {
        parts[1]
    } else {
        Seq::empty()
    }
}

/// The number of a service that one parameter gives.
pub open spec fn service_of(param: Seq<char>) -> Option<int> {
    match text::split_once_at(param, '=') {
        Some((name, value)) => if name == "service_id"@ {
            match text::signed_decimal(value) {
                Some(n) => if i32::MIN <= n <= i32::MAX {
                    Some(n)
                } else {
                    None
                },
                None => None,
            }
        } else {
            None
        },
        None => None,
    }
}

/// The first number of a service that parameters give, or zero.
pub open spec fn first_service(params: Seq<Seq<char>>) -> int
    decreases params.len(),
{
    if params.len() == 0 {
        0
    } else {
        match service_of(params[0]) {
            Some(n) => n,
            None => first_service(params.skip(1)),
        }
    }
}

fn service_param(param: &str) -> (r: Option<i32>)
    ensures
        match r {
            Some(n) => service_of(param@) == Some(n as int),
            None => service_of(param@) is None,
        },
{
    match split_once(param, '=') {
        Some((name, value)) => if str_eq(name.as_str(), "service_id") {
            match parse_i64(value.as_str()) {
                Some(n) => if i32::MIN as i64 <= n && n <= i32::MAX as i64 {
                    Some(n as i32)
                } else {
                    None
                },
                None => None,
            }
        } else {
            None
        },
        None => None,
    }
}

/// The number of the service that an address names, or zero.
pub fn extract_service_id(url: &str) -> (r: i32)
    ensures
        r == first_service(text::split_at_char(query_of(url@), '&')),
{
    let parts = split(url, '?');
    let ghost views = text::split_at_char(url@, '?');
    assert(forall|k: int| 0 <= k < parts@.len() ==> (#[trigger] parts@[k])@ == views[k]);
    let query = if parts.len() > 1 {
        parts[1].clone()
    } else {
        String::new()
    };
    assert(query@ =~= query_of(url@));
    let params = split(query.as_str(), '&');
    let ghost all = text::split_at_char(query@, '&');
    let mut i: usize = 0;
    assert(all.skip(0) =~= all);
    while i < params.len()
        invariant
            i <= params.len(),
            all == text::texts(params@),
            all == text::split_at_char(query_of(url@), '&'),
            first_service(all) == first_service(all.skip(i as int)),
        decreases params.len() - i,
    {
        assert(all.skip(i as int)[0] == params@[i as int]@);
        if let Some(n) = service_param(params[i].as_str()) {
            return n;
        }
        assert(all.skip(i as int).skip(1) =~= all.skip(i + 1));
        i += 1;
    }
    0
}

/// The seconds between pings: what the server configured, or two minutes.
pub fn initial_ping_secs(configured: Option<u64>) -> (r: u64)
    ensures
        r == match configured {
            Some(n) => n,
            None => 120,
        },
{
    match configured {
        Some(n) => n,
        None => 120,
    }
}

// ---------------------------------------------------------------------------
// Frames
// ---------------------------------------------------------------------------

/// The value of a header, or the empty text.
pub open spec fn header_or_empty(f: frame::FrameView, key: Seq<char>) -> Seq<char> {
    types::text_or_empty(frame::header_value(f.headers, key))
}

fn header_text(f: &PbFrame, key: &str) -> (r: String)
    ensures
        r@ == header_or_empty(f@, key@),
{
    match get_header(f.headers.as_slice(), key) {
        Some(v) => v.to_owned(),
        None => String::new(),
    }
}

/// The size that a header gives, or another one.
pub open spec fn header_size(f: frame::FrameView, key: Seq<char>, otherwise: nat) -> nat {
    match frame::header_value(f.headers, key) {
        Some(v) => match text::unsigned_decimal(v) {
            Some(n) => if n <= usize::MAX {
                n
            } else {
                otherwise
            },
            None => otherwise,
        },
        None => otherwise,
    }
}

fn header_number(f: &PbFrame, key: &str, otherwise: usize) -> (r: usize)
    ensures
        r == header_size(f@, key@, otherwise as nat),
{
    match get_header(f.headers.as_slice(), key) {
        Some(v) => match parse_usize(v) {
            Some(n) => n,
            None => otherwise,
        },
        None => otherwise,
    }
}

/// Whether a control frame is a pong with a payload.
pub open spec fn states_timing(f: frame::FrameView) -> bool {
    header_or_empty(f, "type"@) == "pong"@ && f.payload.len() > 0
}

/// The seconds between pings that a control frame asks for: only a pong with a
/// readable payload asks for any.
pub open spec fn asked_interval(f: frame::FrameView, payload: Option<PongPayload>) -> Option<u64> {
    match (states_timing(f), ws_session::pong_timing(payload)) {
        (true, Some(c)) => Some(c.ping_interval_secs),
        _ => None,
    }
}

fn has_timing(f: &PbFrame) -> (r: bool)
    ensures
        r == states_timing(f@),
{
    str_eq(header_text(f, "type").as_str(), "pong") && f.payload.len() > 0
}

/// The seconds between pings that a control frame asks for, with the document that
/// was read in its payload.
pub fn handle_control_frame(f: &PbFrame, payload: Option<PongPayload>) -> (r: Option<u64>)
    ensures
        r == asked_interval(f@, payload),
{
    if !has_timing(f) {
        return None;
    }
    match parse_pong_config(payload) {
        Some(c) => Some(c.ping_interval_secs),
        None => None,
    }
}

/// The fragments that wait after a data frame, and the message that it
/// completes.
pub open spec fn reassembled(m: Map<Seq<char>, ws_session::EntryView>, f: frame::FrameView, now: u64) -> (
    Map<Seq<char>, ws_session::EntryView>,
    Option<Seq<u8>>,
) {
    ws_session::pushed(
        m,
        header_or_empty(f, "message_id"@),
        header_size(f, "sum"@, 1),
        header_size(f, "seq"@, 0),
        f.payload,
        now,
    )
}

/// What a whole message is handed on as: its type and its text, where it is an
/// event or a card and its bytes are text.
pub open spec fn delivered(f: frame::FrameView, whole: Option<Seq<u8>>) -> Option<(Seq<char>, Seq<char>)> {
    let kind = header_or_empty(f, "type"@);
    match whole {
        Some(bytes) => if (kind == "event"@ || kind == "card"@) && valid_utf8(bytes) {
            Some((kind, decode_utf8(bytes)))
        } else {
            None
        },
        None => None,
    }
}

/// What happens on a connection.
#[derive(Debug)]
pub enum LarkEvent {
    Binary(Vec<u8>),
    /// The payload of a pong has been read.
    Pong(PbFrame, Option<PongPayload>),
    Close,
    ReadError(String),
    Ended,
    OtherMessage,
    PingDue,
    PingFailed,
    Shutdown,
}

/// What the connection does about it.
#[derive(Debug)]
pub enum LarkStep {
    Nothing,
    /// Read the document in the payload of a pong.
    ReadPong(PbFrame),
    /// Wait so many seconds from now between pings.
    SetPing(u64),
    /// Send an acknowledgement, then handle what was delivered: its kind and its
    /// text.
    Ack(Vec<u8>, Option<(String, String)>),
    SendPing(Vec<u8>),
    /// End the connection without a failure.
    Finish,
    Fail(ChannelError),
}

/// What a step holds.
pub enum StepView {
    Nothing,
    ReadPong(frame::FrameView),
    SetPing(u64),
    Ack(Seq<u8>, Option<(Seq<char>, Seq<char>)>),
    SendPing(Seq<u8>),
    Finish,
    Fail(error::ErrorView),
}

impl View for LarkStep {
    type V = StepView;

    open spec fn view(&self) -> StepView {
        match self {
            LarkStep::Nothing => StepView::Nothing,
            LarkStep::ReadPong(f) => StepView::ReadPong(f@),
            LarkStep::SetPing(n) => StepView::SetPing(*n),
            LarkStep::Ack(bytes, work) => StepView::Ack(bytes@, callback::opt_pair(*work)),
            LarkStep::SendPing(bytes) => StepView::SendPing(bytes@),
            LarkStep::Finish => StepView::Finish,
            LarkStep::Fail(e) => StepView::Fail(e@),
        }
    }
}

/// What a frame does.
pub open spec fn on_frame(m: Map<Seq<char>, ws_session::EntryView>, f: frame::FrameView, now: u64) -> (
    Map<Seq<char>, ws_session::EntryView>,
    StepView,
) {
    if f.method == METHOD_CONTROL {
        if states_timing(f) {
            (m, StepView::ReadPong(f))
        } else {
            (m, StepView::Nothing)
        }
    } else if f.method == METHOD_DATA {
        let (rest, whole) = reassembled(m, f, now);
        (rest, StepView::Ack(frame::frame_bytes(frame::ack_frame(f)), delivered(f, whole)))
    } else {
        (m, StepView::Nothing)
    }
}

/// What an event does.
pub open spec fn on_event(
    m: Map<Seq<char>, ws_session::EntryView>,
    event: LarkEvent,
    service_id: i32,
    now: u64,
) -> (Map<Seq<char>, ws_session::EntryView>, StepView) {
    match event {
        LarkEvent::Binary(data) => match frame::read_frame(data@) {
            Ok(f) => on_frame(m, f, now),
            Err(_) => (m, StepView::Nothing),
        },
        LarkEvent::Pong(f, payload) => match asked_interval(f@, payload) {
            Some(n) => (m, StepView::SetPing(n)),
            None => (m, StepView::Nothing),
        },
        LarkEvent::Close => (m, StepView::Finish),
        LarkEvent::ReadError(e) => (
            m,
            StepView::Fail(error::ErrorView::ConnectionFailed("Lark WS read error: "@ + e@)),
        ),
        LarkEvent::Ended => (
            m,
            StepView::Fail(error::ErrorView::ConnectionFailed("Lark WS stream ended unexpectedly"@)),
        ),
        LarkEvent::OtherMessage => (m, StepView::Nothing),
        LarkEvent::PingDue => (
            ws_session::cleaned(m, FRAGMENT_TTL_MS, now),
            StepView::SendPing(frame::frame_bytes(frame::ping_frame(service_id))),
        ),
        LarkEvent::PingFailed => (
            m,
            StepView::Fail(error::ErrorView::ConnectionFailed("Lark ping send failed"@)),
        ),
        LarkEvent::Shutdown => (m, StepView::Finish),
    }
}

fn deliver(f: &PbFrame, whole: Option<Vec<u8>>) -> (r: Option<(String, String)>)
    ensures
        callback::opt_pair(r) == delivered(f@, ws_session::fragment_view(whole)),
{
    match whole {
        Some(bytes) => {
            let kind = header_text(f, "type");
            if str_eq(kind.as_str(), "event") || str_eq(kind.as_str(), "card") {
                match string_from_utf8(bytes) {
                    Some(t) => Some((kind, t)),
                    None => None,
                }
            } else {
                None
            }
        },
        None => None,
    }
}

/// Handles what happens on the connection.
pub fn step(fragments: &mut FragmentCache, event: &LarkEvent, service_id: i32, now: u64) -> (r: LarkStep)
    ensures
        (final(fragments)@, r@) == on_event(old(fragments)@, *event, service_id, now),
{
    match event {
        LarkEvent::Binary(data) => match decode_frame(data.as_slice()) {
            Ok(f) => if f.method == METHOD_CONTROL {
                if has_timing(&f) {
                    LarkStep::ReadPong(f)
                } else {
                    LarkStep::Nothing
                }
            } else if f.method == METHOD_DATA {
                let ack = encode_frame(&build_ack_frame(&f));
                let message_id = header_text(&f, "message_id");
                let sum: usize = header_number(&f, "sum", 1);
                let seq: usize = header_number(&f, "seq", 0);
                let whole = fragments.push(message_id.as_str(), sum, seq, f.payload.as_slice(), now);
                LarkStep::Ack(ack, deliver(&f, whole))
            } else {
                LarkStep::Nothing
            },
            Err(_) => LarkStep::Nothing,
        },
        LarkEvent::Pong(f, payload) => match handle_control_frame(f, *payload) {
            Some(n) => LarkStep::SetPing(n),
            None => LarkStep::Nothing,
        },
        LarkEvent::Close => LarkStep::Finish,
        LarkEvent::ReadError(e) => LarkStep::Fail(
            ChannelError::ConnectionFailed(cat("Lark WS read error: ", e.as_str())),
        ),
        LarkEvent::Ended => LarkStep::Fail(
            ChannelError::ConnectionFailed("Lark WS stream ended unexpectedly".to_owned()),
        ),
        LarkEvent::OtherMessage => LarkStep::Nothing,
        LarkEvent::PingDue => {
            fragments.cleanup(FRAGMENT_TTL_MS, now);
            LarkStep::SendPing(encode_frame(&build_ping_frame(service_id)))
        },
        LarkEvent::PingFailed => LarkStep::Fail(ChannelError::ConnectionFailed("Lark ping send failed".to_owned())),
        LarkEvent::Shutdown => LarkStep::Finish,
    }
}

/// A pong that arrives and whose payload can be read sets the time between pings to
/// what it states; no other control frame does anything.
pub proof fn law_pong_sets_the_ping(
    m: Map<Seq<char>, ws_session::EntryView>,
    data: Vec<u8>,
    f: PbFrame,
    payload: Option<PongPayload>,
    service_id: i32,
    now: u64,
)
    requires
        frame::read_frame(data@) matches Ok(g) && g == f@,
        f@.method == METHOD_CONTROL,
    ensures
        on_event(m, LarkEvent::Binary(data), service_id, now) == (m, if states_timing(f@) {
            StepView::ReadPong(f@)
        } else {
            StepView::Nothing
        }),
        on_event(m, LarkEvent::Pong(f, payload), service_id, now) == (m, match (states_timing(f@), payload) {
            (true, Some(p)) => StepView::SetPing(p.ping_interval),
            _ => StepView::Nothing,
        }),
{
}

/// Every data frame is acknowledged, whatever becomes of its payload.
pub proof fn law_data_is_acknowledged(m: Map<Seq<char>, ws_session::EntryView>, f: frame::FrameView, now: u64)
    requires
        f.method == METHOD_DATA,
    ensures
        on_frame(m, f, now).1 matches StepView::Ack(bytes, _) && bytes == frame::frame_bytes(frame::ack_frame(f)),
{
}

/// A message in one piece is handed on at once, and leaves nothing behind.
pub proof fn law_single_frame_is_delivered(
    m: Map<Seq<char>, ws_session::EntryView>,
    f: frame::FrameView,
    now: u64,
)
    requires
        f.method == METHOD_DATA,
        frame::header_value(f.headers, "sum"@) is None,
        frame::header_value(f.headers, "seq"@) is None,
        header_or_empty(f, "type"@) == "event"@,
        valid_utf8(f.payload),
        !m.dom().contains(header_or_empty(f, "message_id"@)),
    ensures
        on_frame(m, f, now).0 == m,
        on_frame(m, f, now).1 == StepView::Ack(
            frame::frame_bytes(frame::ack_frame(f)),
            Some(("event"@, decode_utf8(f.payload))),
        ),
{
    let id = header_or_empty(f, "message_id"@);
    let e = ws_session::with_fragment(ws_session::entry_of(m, id, 1, now), 0, f.payload);
    assert(e.fragments[0] == Some(f.payload));
    assert(ws_session::complete(e.fragments));
    assert(e.fragments.drop_last() =~= Seq::<Option<Seq<u8>>>::empty());
    assert(ws_session::merged(e.fragments.drop_last()) == Seq::<u8>::empty());
    assert(ws_session::merged(e.fragments) =~= f.payload);
    assert(m.remove(id) =~= m);
}

// ---------------------------------------------------------------------------
// Envelopes
// ---------------------------------------------------------------------------

/// What a delivered text is about; each variant carries the text of a document.
#[derive(Debug)]
pub enum WsWork {
    Nothing,
    Message(String),
    Menu(String),
    Card(String),
}

/// What a delivered text is about.
pub enum WorkView {
    Nothing,
    Message(Seq<char>),
    Menu(Seq<char>),
    Card(Seq<char>),
}

impl View for WsWork {
    type V = WorkView;

    open spec fn view(&self) -> WorkView {
        match self {
            WsWork::Nothing => WorkView::Nothing,
            WsWork::Message(s) => WorkView::Message(s@),
            WsWork::Menu(s) => WorkView::Menu(s@),
            WsWork::Card(s) => WorkView::Card(s@),
        }
    }
}

/// The parts of an event's envelope.
#[derive(Debug)]
pub struct Envelope {
    pub event_id: Option<String>,
    pub event_type: Option<String>,
    pub event: Option<String>,
}

/// What an envelope holds.
pub struct EnvelopeView {
    pub event_id: Option<Seq<char>>,
    pub event_type: Option<Seq<char>>,
    pub event: Option<Seq<char>>,
}

impl View for Envelope {
    type V = EnvelopeView;

    open spec fn view(&self) -> EnvelopeView {
        EnvelopeView {
            event_id: types::opt_text(self.event_id),
            event_type: types::opt_text(self.event_type),
            event: types::opt_text(self.event),
        }
    }
}

/// The parts of the envelope that a document is.
pub open spec fn envelope_of(node: Option<json::NodeView>) -> EnvelopeView {
    let header = json::opt_document(json::member_text(node, "header"@));
    EnvelopeView {
        event_id: json::node_str(json::opt_document(json::member_text(header, "event_id"@))),
        event_type: json::node_str(json::opt_document(json::member_text(header, "event_type"@))),
        event: json::member_text(node, "event"@),
    }
}

fn read_envelope(node: &Option<JsonNode>) -> (r: Envelope)
    ensures
        r@ == envelope_of(json::opt_node(*node)),
{
    let header = parse_opt(&find_member(node, "header"));
    Envelope {
        event_id: as_text(parse_opt(&find_member(&header, "event_id"))),
        event_type: as_text(parse_opt(&find_member(&header, "event_type"))),
        event: find_member(node, "event"),
    }
}

/// What was seen after an envelope: its event id, where it has one.
pub open spec fn seen_after(seen: Map<Seq<char>, u64>, envelope: EnvelopeView, now: u64) -> Map<Seq<char>, u64> {
    match envelope.event_id {
        Some(id) => dedup::after_sight(seen, id, now),
        None => seen,
    }
}

/// What an envelope is about: a new event of a known type.
pub open spec fn envelope_work(seen: Map<Seq<char>, u64>, envelope: EnvelopeView) -> WorkView {
    if envelope.event_id matches Some(id) && seen.dom().contains(id) {
        WorkView::Nothing
    } else {
        match envelope.event {
            Some(event) => if envelope.event_type == Some("im.message.receive_v1"@) {
                WorkView::Message(event)
            } else if envelope.event_type == Some("application.bot.menu_v6"@) {
                WorkView::Menu(event)
            } else {
                WorkView::Nothing
            },
            None => WorkView::Nothing,
        }
    }
}

/// Handles an envelope: it is noted, and its event is handed on where it is new
/// and of a known type.
pub fn handle_envelope(seen: &mut DedupCache, envelope: Envelope, now: u64) -> (r: WsWork)
    ensures
        final(seen)@ == seen_after(old(seen)@, envelope@, now),
        r@ == envelope_work(old(seen)@, envelope@),
{
    if let Some(id) = &envelope.event_id {
        if seen.is_duplicate(id.as_str(), now) {
            return WsWork::Nothing;
        }
    }
    match (envelope.event_type, envelope.event) {
        (Some(kind), Some(event)) => if str_eq(kind.as_str(), "im.message.receive_v1") {
            WsWork::Message(event)
        } else if str_eq(kind.as_str(), "application.bot.menu_v6") {
            WsWork::Menu(event)
        } else {
            WsWork::Nothing
        },
        _ => WsWork::Nothing,
    }
}

/// What was seen after a delivered text.
pub open spec fn seen_after_text(seen: Map<Seq<char>, u64>, content: Seq<char>, kind: Seq<char>, now: u64) -> Map<
    Seq<char>,
    u64,
> {
    if kind == "event"@ && json::json_node(content) is Some {
        seen_after(seen, envelope_of(json::json_node(content)), now)
    } else {
        seen
    }
}

/// What a delivered text is about.
pub open spec fn text_work(seen: Map<Seq<char>, u64>, content: Seq<char>, kind: Seq<char>) -> WorkView {
    if json::json_node(content) is None {
        WorkView::Nothing
    } else if kind == "event"@ {
        envelope_work(seen, envelope_of(json::json_node(content)))
    } else if kind == "card"@ {
        WorkView::Card(content)
    } else {
        WorkView::Nothing
    }
}

proof fn lemma_kinds_differ()
    ensures
        "event"@ != "card"@,
{
    reveal_strlit("event");
    reveal_strlit("card");
    assert("event"@[0] == 'e');
    assert("card"@[0] == 'c');
}

/// Handles a delivered text.
pub fn handle_ws_text(seen: &mut DedupCache, content: &str, kind: &str, now: u64) -> (r: WsWork)
    ensures
        final(seen)@ == seen_after_text(old(seen)@, content@, kind@, now),
        r@ == text_work(old(seen)@, content@, kind@),
{
    proof {
        lemma_kinds_differ();
    }
    let node = parse_node(content);
    if node.is_none() {
        return WsWork::Nothing;
    }
    if str_eq(kind, "event") {
        handle_envelope(seen, read_envelope(&node), now)
    } else if str_eq(kind, "card") {
        WsWork::Card(content.to_owned())
    } else {
        WsWork::Nothing
    }
}

/// An event that is delivered again leads to nothing.
pub proof fn law_redelivery_is_silent(seen: Map<Seq<char>, u64>, envelope: EnvelopeView, now: u64)
    requires
        envelope.event_id is Some,
    ensures
        envelope_work(seen_after(seen, envelope, now), envelope) == WorkView::Nothing,
{
}

// ---------------------------------------------------------------------------
// The content of a message
// ---------------------------------------------------------------------------

/// What the document of a message's content names, read as the content of each type
/// of message: nothing for a type that the document does not fit.
#[derive(Debug)]
pub struct ContentFields {
    pub text: Option<String>,
    pub image_key: Option<String>,
    /// The key and the name of a file.
    pub file: Option<(String, Option<String>)>,
    pub file_key: Option<String>,
}

/// What the document of a message's content names.
pub struct FieldsView {
    pub text: Option<Seq<char>>,
    pub image_key: Option<Seq<char>>,
    pub file: Option<(Seq<char>, Option<Seq<char>>)>,
    pub file_key: Option<Seq<char>>,
}

impl View for ContentFields {
    type V = FieldsView;

    open spec fn view(&self) -> FieldsView {
        FieldsView {
            text: types::opt_text(self.text),
            image_key: types::opt_text(self.image_key),
            file: match self.file {
                Some((key, name)) => Some((key@, types::opt_text(name))),
                None => None,
            },
            file_key: types::opt_text(self.file_key),
        }
    }
}

/// A text without the keys that stand for mentions, trimmed after each.
pub open spec fn without_keys(s: Seq<char>, mentions: Seq<Mention>) -> Seq<char>
    decreases mentions.len(),
{
    if mentions.len() == 0 {
        s
    } else {
        text::trimmed(text::replaced(without_keys(s, mentions.drop_last()), mentions.last().key@, ""@))
    }
}

/// The mentions, where there are any.
pub open spec fn mentions_of(mentions: Option<&Vec<Mention>>) -> Seq<Mention> {
    match mentions {
        Some(v) => v@,
        None => Seq::empty(),
    }
}

/// A content with one file.
pub open spec fn file_content(
    content_type: MessageContentType,
    file_id: Seq<char>,
    file_name: Option<Seq<char>>,
    mime_type: Option<Seq<char>>,
) -> types::ContentView {
    types::ContentView {
        content_type,
        text: Seq::empty(),
        attachments: Some(
            Seq::empty().push(
                types::AttachmentView { file_id: Some(file_id), file_name, mime_type, file_size: None, url: None },
            ),
        ),
    }
}

/// A content of text.
pub open spec fn text_content(content_type: MessageContentType, s: Seq<char>) -> types::ContentView {
    types::ContentView { content_type, text: s, attachments: None }
}

/// The content of a message of a type, with what its document names.
pub open spec fn content_of(message_type: Seq<char>, fields: FieldsView, mentions: Seq<Mention>) -> types::ContentView {
    if message_type == "text"@ {
        let s = without_keys(types::text_or_empty(fields.text), mentions);
        if text::begins_with(s, "/"@) {
            text_content(MessageContentType::Command, s)
        } else {
            text_content(MessageContentType::Text, s)
        }
    } else if message_type == "image"@ {
        file_content(
            MessageContentType::Photo,
            types::text_or_empty(fields.image_key),
            None,
            Some("image/jpeg"@),
        )
    } else if message_type == "file"@ {
        match fields.file {
            Some((key, name)) => file_content(MessageContentType::Document, key, name, None),
            None => file_content(MessageContentType::Document, Seq::empty(), None, None),
        }
    } else if message_type == "audio"@ {
        file_content(MessageContentType::Audio, types::text_or_empty(fields.file_key), None, Some("audio/opus"@))
    } else {
        text_content(MessageContentType::Text, "[Unsupported message type: "@ + message_type + "]"@)
    }
}

/// A kind of content, its text and its attachments.
pub type ContentParts = (MessageContentType, String, Option<Vec<UnifiedAttachment>>);

/// What the parts of a content hold.
pub open spec fn parts_view(p: ContentParts) -> types::ContentView {
    types::ContentView { content_type: p.0, text: p.1@, attachments: types::attachments_view(p.2) }
}

fn strip_keys(s: String, mentions: Option<&Vec<Mention>>) -> (r: String)
    ensures
        r@ == without_keys(s@, mentions_of(mentions)),
{
    match mentions {
        None => s,
        Some(v) => {
            let ghost start = s@;
            let mut out = s;
            let mut i: usize = 0;
            assert(v@.take(0) =~= Seq::<Mention>::empty());
            while i < v.len()
                invariant
                    i <= v.len(),
                    out@ == without_keys(start, v@.take(i as int)),
                decreases v.len() - i,
            {
                assert(v@.take(i + 1).drop_last() =~= v@.take(i as int));
                assert(v@.take(i + 1).last() == v@[i as int]);
                let key: &str = v[i].key.as_str();
                if !key.is_empty() {
                    out = replace(out.as_str(), key, "");
                }
                out = trim(out.as_str());
                i += 1;
            }
            assert(v@.take(v@.len() as int) =~= v@);
            out
        },
    }
}

fn one_file(
    content_type: MessageContentType,
    file_id: String,
    file_name: Option<String>,
    mime_type: Option<String>,
) -> (r: ContentParts)
    ensures
        parts_view(r) == file_content(content_type, file_id@, types::opt_text(file_name), types::opt_text(mime_type)),
{
    let file = UnifiedAttachment { file_id: Some(file_id), file_name, mime_type, file_size: None, url: None };
    let mut files: Vec<UnifiedAttachment> = Vec::new();
    files.push(file);
    let r: ContentParts = (content_type, String::new(), Some(files));
    assert(parts_view(r) =~~= file_content(
        content_type,
        file_id@,
        types::opt_text(file_name),
        types::opt_text(mime_type),
    ));
    r
}

/// The content of a message of a type, from what the document of its content names.
pub fn extract_message_content(message_type: &str, fields: ContentFields, mentions: Option<&Vec<Mention>>) -> (r:
    ContentParts)
    ensures
        parts_view(r) == content_of(message_type@, fields@, mentions_of(mentions)),
{
    if str_eq(message_type, "text") {
        let s = strip_keys(copy_or_empty(&fields.text), mentions);
        if starts_with(s.as_str(), "/") {
            (MessageContentType::Command, s, None)
        } else {
            (MessageContentType::Text, s, None)
        }
    } else if str_eq(message_type, "image") {
        one_file(
            MessageContentType::Photo,
            copy_or_empty(&fields.image_key),
            None,
            Some("image/jpeg".to_owned()),
        )
    } else if str_eq(message_type, "file") {
        match fields.file {
            Some((key, name)) => one_file(MessageContentType::Document, key, name, None),
            None => one_file(MessageContentType::Document, String::new(), None, None),
        }
    } else if str_eq(message_type, "audio") {
        one_file(
            MessageContentType::Audio,
            copy_or_empty(&fields.file_key),
            None,
            Some("audio/opus".to_owned()),
        )
    } else {
        (MessageContentType::Text, cat3("[Unsupported message type: ", message_type, "]"), None)
    }
}

// ---------------------------------------------------------------------------
// Events
// ---------------------------------------------------------------------------

/// A user of whom only the id is known.
pub open spec fn user_view(id: Seq<char>) -> types::UserView {
    types::UserView { id, username: None, display_name: id, avatar_url: None }
}

fn user_of(id: &str) -> (r: UnifiedUser)
    ensures
        r@ == user_view(id@),
{
    UnifiedUser { id: id.to_owned(), username: None, display_name: id.to_owned(), avatar_url: None }
}

/// The time of a message in seconds: its own, or that of its arrival.
pub open spec fn message_time(create_time: Option<Seq<char>>, now: i64) -> int {
    match create_time {
        Some(t) => match text::signed_decimal(t) {
            Some(ms) => if i64::MIN <= ms <= i64::MAX {
                time::whole_seconds(ms)
            } else {
                now as int
            },
            None => now as int,
        },
        None => now as int,
    }
}

fn timestamp_of(create_time: &Option<String>, now: i64) -> (r: i64)
    ensures
        r == message_time(types::opt_text(*create_time), now),
{
    match create_time {
        Some(t) => match parse_i64(t.as_str()) {
            Some(ms) => seconds_of(ms),
            None => now,
        },
        None => now,
    }
}

/// The mentions of an event, where there are any.
pub open spec fn event_mentions(evt: MessageEvent) -> Seq<Mention> {
    match evt.message.mentions {
        Some(v) => v@,
        None => Seq::empty(),
    }
}

/// The message that an event stands for, with what its document names.
pub open spec fn message_view(evt: MessageEvent, fields: FieldsView, now: i64) -> types::IncomingView {
    types::IncomingView {
        owner_user_id: None,
        id: evt.message.message_id@,
        platform: PluginType::Lark,
        chat_id: evt.message.chat_id@,
        user: user_view(evt.sender.sender_id.open_id@),
        content: content_of(evt.message.message_type@, fields, event_mentions(evt)),
        timestamp: message_time(types::opt_text(evt.message.create_time), now) as i64,
        reply_to_message_id: types::opt_text(evt.message.parent_id),
        action: None,
    }
}

/// The message that an event stands for, with what the document of its content
/// names.
pub fn handle_message_event(evt: &MessageEvent, fields: ContentFields, now: i64) -> (r: UnifiedIncomingMessage)
    ensures
        r@ == message_view(*evt, fields@, now),
{
    let mentions: Option<&Vec<Mention>> = evt.message.mentions.as_ref();
    assert(mentions_of(mentions) == event_mentions(*evt));
    let (content_type, s, attachments) = extract_message_content(evt.message.message_type.as_str(), fields, mentions);
    UnifiedIncomingMessage {
        owner_user_id: None,
        id: evt.message.message_id.clone(),
        platform: PluginType::Lark,
        chat_id: evt.message.chat_id.clone(),
        user: user_of(evt.sender.sender_id.open_id.as_str()),
        content: UnifiedMessageContent { content_type, text: s, attachments },
        timestamp: timestamp_of(&evt.message.create_time, now),
        reply_to_message_id: copy_opt(&evt.message.parent_id),
        action: None,
    }
}

/// Where a card was pressed, and by whom.
pub open spec fn card_context(evt: CardActionEvent) -> types::ContextView {
    types::ContextView {
        platform: PluginType::Lark,
        user_id: evt.operator.open_id@,
        chat_id: types::text_or_empty(types::opt_text(evt.open_chat_id)),
        message_id: types::opt_text(evt.open_message_id),
        session_id: None,
    }
}

/// The message that a pressed button stands for.
pub open spec fn card_view(evt: CardActionEvent, action: Seq<char>, now: i64) -> types::IncomingView {
    types::IncomingView {
        owner_user_id: None,
        id: "card_"@ + text::int_text(now as int),
        platform: PluginType::Lark,
        chat_id: types::text_or_empty(types::opt_text(evt.open_chat_id)),
        user: user_view(evt.operator.open_id@),
        content: text_content(MessageContentType::Action, action),
        timestamp: now,
        reply_to_message_id: None,
        action: callback::triggered(callback::parsed_callback(action), card_context(evt)),
    }
}

/// A pressed button: the tool call that it confirms, and the message.
#[derive(Debug)]
pub struct CardOutcome {
    pub confirm: Option<(String, String)>,
    pub message: UnifiedIncomingMessage,
}

/// What a pressed button with this callback leads to.
pub fn card_from_action(evt: &CardActionEvent, action: String, now: i64) -> (r: CardOutcome)
    ensures
        callback::opt_pair(r.confirm) == callback::confirmed_call(callback::parsed_callback(action@)),
        r.message@ == card_view(*evt, action@, now),
{
    let parsed = parse_lark_callback(action.as_str());
    let confirm = confirmation(&parsed);
    let chat_id = copy_or_empty(&evt.open_chat_id);
    let context = ActionContext {
        platform: PluginType::Lark,
        user_id: evt.operator.open_id.clone(),
        chat_id: chat_id.clone(),
        message_id: copy_opt(&evt.open_message_id),
        session_id: None,
    };
    let message = UnifiedIncomingMessage {
        owner_user_id: None,
        id: cat("card_", i64_text(now).as_str()),
        platform: PluginType::Lark,
        chat_id,
        user: user_of(evt.operator.open_id.as_str()),
        content: UnifiedMessageContent { content_type: MessageContentType::Action, text: action, attachments: None },
        timestamp: now,
        reply_to_message_id: None,
        action: trigger_action(parsed, context),
    };
    CardOutcome { confirm, message }
}

/// The callback that the value of a button holds.
pub open spec fn card_action(value: Option<Seq<char>>) -> Seq<char> {
    types::text_or_empty(
        json::node_str(json::opt_document(json::member_text(json::opt_document(value), "action"@))),
    )
}

/// What a pressed button leads to.
pub fn handle_card_action(evt: &CardActionEvent, now: i64) -> (r: CardOutcome)
    ensures
        callback::opt_pair(r.confirm) == callback::confirmed_call(
            callback::parsed_callback(card_action(types::opt_text(evt.action.value))),
        ),
        r.message@ == card_view(*evt, card_action(types::opt_text(evt.action.value)), now),
{
    let value = parse_opt(&evt.action.value);
    let action = as_text(parse_opt(&find_member(&value, "action")));
    card_from_action(evt, copy_or_empty(&action), now)
}

/// The message that an entry of the menu stands for: a command to the chat with
/// whoever chose it.
pub open spec fn menu_view(evt: BotMenuEvent, now: i64) -> types::IncomingView {
    types::IncomingView {
        owner_user_id: None,
        id: "menu_"@ + text::int_text(now as int),
        platform: PluginType::Lark,
        chat_id: evt.operator.operator_id.open_id@,
        user: user_view(evt.operator.operator_id.open_id@),
        content: text_content(MessageContentType::Command, "/"@ + evt.event_key@),
        timestamp: now,
        reply_to_message_id: None,
        action: None,
    }
}

/// The message that an entry of the menu stands for.
pub fn handle_bot_menu_event(evt: &BotMenuEvent, now: i64) -> (r: UnifiedIncomingMessage)
    ensures
        r@ == menu_view(*evt, now),
{
    UnifiedIncomingMessage {
        owner_user_id: None,
        id: cat("menu_", i64_text(now).as_str()),
        platform: PluginType::Lark,
        chat_id: evt.operator.operator_id.open_id.clone(),
        user: user_of(evt.operator.operator_id.open_id.as_str()),
        content: UnifiedMessageContent {
            content_type: MessageContentType::Command,
            text: cat("/", evt.event_key.as_str()),
            attachments: None,
        },
        timestamp: now,
        reply_to_message_id: None,
        action: None,
    }
}

// ---------------------------------------------------------------------------
// The plugin
// ---------------------------------------------------------------------------

/// The Lark plugin.
#[derive(Debug)]
pub struct LarkPlugin {
    pub state: PluginState<LarkApi>,
}

/// The text of the card that a message goes out as.
pub open spec fn outgoing_card(message: UnifiedOutgoingMessage, limit: nat) -> Seq<char> {
    json::json_text(
        wire::card_view(
            text::cut_to_limit(types::text_or_empty(types::opt_text(message.text)), limit),
            message.buttons,
        ),
    )
}

/// What is missing for an initialization, if anything.
pub open spec fn missing(credentials: PluginCredentials) -> Option<Seq<char>> {
    if types::nonempty(types::opt_text(credentials.app_id)) is None {
        Some("Missing Lark app_id"@)
    } else if types::nonempty(types::opt_text(credentials.app_secret)) is None {
        Some("Missing Lark app_secret"@)
    } else {
        None
    }
}

impl LarkPlugin {
    /// A plugin to which nothing has happened.
    pub fn new() -> (r: Self)
        ensures
            r.state@ == lifecycle::created::<LarkApi>(PluginType::Lark),
    {
        LarkPlugin { state: PluginState::new(PluginType::Lark) }
    }

    fn lacks(&mut self, what: &str) -> (r: ChannelError)
        ensures
            final(self).state@ == lifecycle::failed(old(self).state@, what@),
            r@ == error::ErrorView::InvalidConfig(what@),
    {
        self.state.fail(what.to_owned());
        ChannelError::InvalidConfig(what.to_owned())
    }

    /// Begins an initialization; it needs the id and the secret of an
    /// application.
    pub fn initialize(&mut self, credentials: &PluginCredentials) -> (r: Result<LarkApi, ChannelError>)
        ensures
            match missing(*credentials) {
                None => {
                    &&& r matches Ok(a) && Some(a.app_id@) == types::opt_text(credentials.app_id) && Some(
                        a.app_secret@,
                    ) == types::opt_text(credentials.app_secret)
                    &&& final(self).state@ == (lifecycle::StateView {
                        status: types::PluginStatus::Initializing,
                        ..old(self).state@
                    })
                },
                Some(what) => {
                    &&& r matches Err(e) && e@ == error::ErrorView::InvalidConfig(what)
                    &&& final(self).state@ == lifecycle::failed(old(self).state@, what)
                },
            },
    {
        self.state.begin();
        match copy_nonempty(&credentials.app_id) {
            Some(app_id) => match copy_nonempty(&credentials.app_secret) {
                Some(app_secret) => Ok(LarkApi::new(app_id.as_str(), app_secret.as_str())),
                None => Err(self.lacks("Missing Lark app_secret")),
            },
            None => Err(self.lacks("Missing Lark app_id")),
        }
    }

    /// Ends an initialization with the identity of the bot.
    pub fn identified(&mut self, api: LarkApi, bot: BotInfoData)
        ensures
            final(self).state@ == lifecycle::made_ready(
                old(self).state@,
                types::BotInfoView { id: bot.open_id@, username: None, display_name: bot.app_name@ },
                api,
            ),
    {
        self.state.ready(BotInfo { id: bot.open_id, username: None, display_name: bot.app_name }, api);
    }

    /// The request that sends a message as a card, with the token to use.
    pub fn send_message(
        &self,
        token: &str,
        chat_id: &str,
        message: &UnifiedOutgoingMessage,
        limit: usize,
    ) -> (r: Result<HttpRequest, ChannelError>)
        ensures
            match self.state.api {
                Some(_) => r matches Ok(q) && q@ == api::send_request(
                    token@,
                    chat_id@,
                    outgoing_card(*message, limit as nat),
                ),
                None => r matches Err(e) && e@ == error::ErrorView::PlatformApi("Plugin not initialized"@),
            },
    {
        match self.state.require_api() {
            Ok(a) => {
                let cut = truncate_message(copy_or_empty(&message.text).as_str(), limit);
                let card = build_interactive_card(cut.as_str(), &message.buttons);
                Ok(a.send_card(token, chat_id, card.as_str()))
            },
            Err(e) => Err(e),
        }
    }

    /// The request that edits a message, with the token to use.
    pub fn edit_message(
        &self,
        token: &str,
        message_id: &str,
        message: &UnifiedOutgoingMessage,
        limit: usize,
    ) -> (r: Result<HttpRequest, ChannelError>)
        ensures
            match self.state.api {
                Some(_) => r matches Ok(q) && q@ == api::update_request(
                    token@,
                    message_id@,
                    outgoing_card(*message, limit as nat),
                ),
                None => r matches Err(e) && e@ == error::ErrorView::PlatformApi("Plugin not initialized"@),
            },
    {
        match self.state.require_api() {
            Ok(a) => {
                let cut = truncate_message(copy_or_empty(&message.text).as_str(), limit);
                let card = build_interactive_card(cut.as_str(), &message.buttons);
                Ok(a.update_card(token, message_id, card.as_str()))
            },
            Err(e) => Err(e),
        }
    }
}

// ---------------------------------------------------------------------------
// Laws
// ---------------------------------------------------------------------------

/// A text comes through as it is where nobody is mentioned, as a command exactly if it
/// begins with a slash.
pub proof fn law_text_comes_through(s: Seq<char>, fields: FieldsView)
    requires
        fields.text == Some(s),
    ensures
        ({
            let c = content_of("text"@, fields, Seq::empty());
            &&& c.text == s
            &&& c.attachments is None
            &&& c.content_type == MessageContentType::Command <==> s.len() > 0 && s[0] == '/'
            &&& c.content_type == MessageContentType::Text <==> s.len() == 0 || s[0] != '/'
        }),
{
    reveal_strlit("/");
    assert("/"@ =~= seq!['/']);
    if s.len() > 0 {
        assert(s.subrange(0, 1)[0] == s[0]);
        assert(s[0] == '/' ==> s.subrange(0, 1) =~= "/"@);
    }
}

/// The key that stands for a mention is taken out of a text, and nothing else but white
/// space at its ends.
pub proof fn law_mentions_are_taken_out(before: Seq<char>, after: Seq<char>, mention: Mention, fields: FieldsView)
    requires
        mention.key@.len() > 0,
        text::lacks_char(before, mention.key@[0]),
        text::lacks_char(after, mention.key@[0]),
        fields.text == Some(before + mention.key@ + after),
    ensures
        content_of("text"@, fields, seq![mention]).text == text::trimmed(before + after),
{
    reveal_strlit("");
    let all = seq![mention];
    assert(all.drop_last().len() == 0);
    assert(without_keys(fields.text->0, all.drop_last()) == fields.text->0);
    text::law_replacing_changes_what_it_names(before, mention.key@, after, ""@);
    assert(before + ""@ + after =~= before + after);
}

/// A picture, a file and a sound come through as one attachment of their kind, by their
/// key and, for a file, with its name.
pub proof fn law_files_come_through(message_type: Seq<char>, fields: FieldsView, mentions: Seq<Mention>)
    ensures
        ({
            let c = content_of(message_type, fields, mentions);
            let file = c.attachments->0[0];
            &&& c.content_type == MessageContentType::Photo <==> message_type == "image"@
            &&& c.content_type == MessageContentType::Document <==> message_type == "file"@
            &&& c.content_type == MessageContentType::Audio <==> message_type == "audio"@
            &&& message_type == "image"@ && fields.image_key is Some ==> file.file_id == fields.image_key
            &&& message_type == "audio"@ && fields.file_key is Some ==> file.file_id == fields.file_key
            &&& message_type == "file"@ ==> (fields.file matches Some((key, name)) ==> file.file_id == Some(key)
                && file.file_name == name)
            &&& c.attachments is Some <==> message_type == "image"@ || message_type == "file"@ || message_type
                == "audio"@
            &&& c.attachments is Some ==> c.attachments->0.len() == 1
        }),
{
    reveal_strlit("text");
    reveal_strlit("image");
    reveal_strlit("file");
    reveal_strlit("audio");
    assert("text"@.len() == 4 && "image"@.len() == 5 && "file"@.len() == 4 && "audio"@.len() == 5
        && "text"@[0] == 't' && "image"@[0] == 'i' && "file"@[0] == 'f' && "audio"@[0] == 'a');
}

/// A message keeps its id, its chat, its sender and what it replies to, and is of the
/// second in which it was made.
pub proof fn law_message_keeps_its_origin(evt: MessageEvent, fields: FieldsView, now: i64, ms: nat)
    requires
        ms <= i64::MAX,
        evt.message.create_time matches Some(t) && t@ == text::nat_text(ms),
    ensures
        ({
            let m = message_view(evt, fields, now);
            &&& m.id == evt.message.message_id@
            &&& m.chat_id == evt.message.chat_id@
            &&& m.user.id == evt.sender.sender_id.open_id@
            &&& m.reply_to_message_id == types::opt_text(evt.message.parent_id)
            &&& m.platform == PluginType::Lark
            &&& m.action is None
            &&& m.timestamp == ms / 1000
        }),
{
    text::law_decimal_is_read_back(ms);
    let t = text::nat_text(ms);
    assert(text::is_digit(t[0]));
}

/// A pressed button is a message of whoever pressed it, in the chat where it was
/// pressed, and its action knows both.
pub proof fn law_pressed_button_keeps_its_origin(evt: CardActionEvent, b: types::ActionButton, now: i64)
    requires
        callback::can_be_read_back(b),
        evt.open_chat_id is Some,
    ensures
        ({
            let m = card_view(evt, callback::callback_text(b.action@, callback::opt_pairs(b.params)), now);
            &&& m.user.id == evt.operator.open_id@
            &&& m.chat_id == evt.open_chat_id->0@
            &&& m.action matches Some(a) && {
                &&& a.action == b.action@
                &&& a.params == callback::own_params(b)
                &&& a.context.user_id == evt.operator.open_id@
                &&& a.context.chat_id == evt.open_chat_id->0@
                &&& a.context.message_id == types::opt_text(evt.open_message_id)
                &&& a.context.platform == PluginType::Lark
            }
        }),
{
    callback::law_button_leads_to_its_action(b);
    let t = callback::callback_text(b.action@, callback::opt_pairs(b.params));
    assert(callback::triggered(callback::parsed_callback(t), card_context(evt)) is Some);
}

/// An entry of the menu is the command of its name, from whoever chose it and in the
/// chat with them.
pub proof fn law_menu_entry_is_a_command(evt: BotMenuEvent, now: i64)
    ensures
        menu_view(evt, now).content.text == seq!['/'] + evt.event_key@,
        menu_view(evt, now).content.content_type == MessageContentType::Command,
        menu_view(evt, now).user.id == evt.operator.operator_id.open_id@,
        menu_view(evt, now).chat_id == evt.operator.operator_id.open_id@,
        menu_view(evt, now).timestamp == now,
{
    reveal_strlit("/");
    assert("/"@ =~= seq!['/']);
}

/// A new event is handed on as what its type says, and only messages and entries of the
/// menu are.
pub proof fn law_events_are_handed_on(seen: Map<Seq<char>, u64>, envelope: EnvelopeView)
    requires
        envelope.event is Some,
        envelope.event_id matches Some(id) ==> !seen.dom().contains(id),
    ensures
        envelope_work(seen, envelope) == WorkView::Message(envelope.event->0) <==> envelope.event_type == Some(
            "im.message.receive_v1"@,
        ),
        envelope_work(seen, envelope) == WorkView::Menu(envelope.event->0) <==> envelope.event_type == Some(
            "application.bot.menu_v6"@,
        ),
        envelope_work(seen, envelope) !is Card,
{
    reveal_strlit("im.message.receive_v1");
    reveal_strlit("application.bot.menu_v6");
    assert("im.message.receive_v1"@.len() == 21 && "application.bot.menu_v6"@.len() == 23);
}

/// A frame of an event or a card that completes a message hands on that message, with
/// its kind.
pub proof fn law_whole_message_is_handed_on(f: frame::FrameView, bytes: Seq<u8>)
    ensures
        delivered(f, None) is None,
        valid_utf8(bytes) && frame::header_value(f.headers, "type"@) == Some("event"@) ==> delivered(f, Some(bytes))
            == Some(("event"@, decode_utf8(bytes))),
        valid_utf8(bytes) && frame::header_value(f.headers, "type"@) == Some("card"@) ==> delivered(f, Some(bytes))
            == Some(("card"@, decode_utf8(bytes))),
        delivered(f, Some(bytes)) matches Some((kind, t)) ==> encode_utf8(t) == bytes && (kind == "event"@ || kind
            == "card"@),
{
    if valid_utf8(bytes) {
        decode_utf8_encode_utf8(bytes);
    }
}

/// A connection that fails says so; one that is closed or no longer wanted ends
/// quietly.
pub proof fn law_connection_ends_as_it_should(
    m: Map<Seq<char>, ws_session::EntryView>,
    event: LarkEvent,
    service_id: i32,
    now: u64,
)
    ensures
        on_event(m, event, service_id, now).1 is Finish <==> event is Close || event is Shutdown,
        on_event(m, event, service_id, now).1 is Fail <==> event is ReadError || event is Ended || event is PingFailed,
        on_event(m, event, service_id, now).1 is SendPing <==> event is PingDue,
{
}

/// What goes out is the text of the message, as far as the platform allows, with its
/// buttons.
pub proof fn law_outgoing_text_is_the_text(message: UnifiedOutgoingMessage, limit: nat)
    requires
        message.text matches Some(t) && t@.len() <= limit,
    ensures
        outgoing_card(message, limit) == json::json_text(wire::card_view(message.text->0@, message.buttons)),
{
}

/// Credentials are enough exactly if both the id and the secret of an application are
/// there and not empty.
pub proof fn law_both_credentials_are_needed(credentials: PluginCredentials)
    ensures
        missing(credentials) is None <==> {
            &&& credentials.app_id matches Some(id) && id@.len() > 0
            &&& credentials.app_secret matches Some(secret) && secret@.len() > 0
        },
        credentials.app_id is None ==> missing(credentials) == Some("Missing Lark app_id"@),
        (credentials.app_id matches Some(x) && x@.len() > 0) && credentials.app_secret is None ==> missing(credentials) == Some(
            "Missing Lark app_secret"@,
        ),
{
}

/// The number of the service is what the query of the address says, whatever other parameters
/// stand beside it.
pub proof fn law_service_is_what_the_address_says(base: Seq<char>, query: Seq<char>, n: nat)
    requires
        !base.contains('?'),
        !query.contains('?'),
        n <= i32::MAX,
    ensures
        query_of(base + seq!['?'] + query) == query,
        query_of(base).len() == 0,
        service_of("service_id="@ + text::nat_text(n)) == Some(n as int),
{
    let url = base + seq!['?'] + query;
    text::lemma_index_unique(url, '?', base.len() as int);
    assert(url.take(base.len() as int) =~= base);
    assert(url.skip(base.len() as int + 1) =~= query);
    text::lemma_index_unique(query, '?', query.len() as int);
    text::lemma_index_unique(base, '?', base.len() as int);
    assert(text::split_at_char(query, '?') =~= seq![query]);
    assert(text::split_at_char(base, '?') =~= seq![base]);
    assert(text::split_at_char(url, '?') =~= seq![base, query]);
    let param = "service_id="@ + text::nat_text(n);
    reveal_strlit("service_id=");
    reveal_strlit("service_id");
    text::law_decimal_is_read_back(n);
    text::lemma_index_unique(param, '=', 10);
    assert(param.take(10) =~= "service_id"@);
    assert(param.skip(11) =~= text::nat_text(n));
    assert(text::is_digit(text::nat_text(n)[0]));
}

/// The first parameter that gives a number decides.
pub proof fn law_first_service_counts(before: Seq<Seq<char>>, param: Seq<char>, after: Seq<Seq<char>>)
    requires
        forall|i: int| 0 <= i < before.len() ==> service_of(#[trigger] before[i]) is None,
        service_of(param) is Some,
    ensures
        first_service(before + seq![param] + after) == service_of(param)->0,
        first_service(before) == 0,
    decreases before.len(),
{
    let all = before + seq![param] + after;
    if before.len() > 0 {
        let rest = before.skip(1);
        assert forall|i: int| 0 <= i < rest.len() implies service_of(#[trigger] rest[i]) is None by {
            assert(rest[i] == before[i + 1]);
        }
        law_first_service_counts(rest, param, after);
        assert(all.skip(1) =~= rest + seq![param] + after);
        assert(all[0] == before[0]);
        assert(service_of(before[0]) is None);
    } else {
        assert(all[0] == param);
    }
}

/// A delivered event is handled by its header and its content, and a pressed button by all
/// that was delivered; anything else is left alone.
pub proof fn law_deliveries_are_what_they_say(seen: Map<Seq<char>, u64>, content: Seq<char>, kind: Seq<char>, now: u64)
    requires
        json::json_node(content) is Some,
    ensures
        kind == "card"@ ==> text_work(seen, content, kind) == WorkView::Card(content),
        kind == "event"@ ==> text_work(seen, content, kind) == envelope_work(
            seen,
            envelope_of(json::json_node(content)),
        ),
        kind == "event"@ ==> seen_after_text(seen, content, kind, now) == seen_after(
            seen,
            envelope_of(json::json_node(content)),
            now,
        ),
        kind != "card"@ && kind != "event"@ ==> text_work(seen, content, kind) == WorkView::Nothing,
        kind != "event"@ ==> seen_after_text(seen, content, kind, now) == seen,
{
    reveal_strlit("card");
    reveal_strlit("event");
    assert("card"@.len() == 4 && "event"@.len() == 5);
}

/// An event is known by the id and the type in its header.
pub proof fn law_envelope_is_read_by_its_header(content: Seq<char>, header: Seq<char>)
    requires
        json::member_text(json::json_node(content), "header"@) == Some(header),
    ensures
        ({
            let e = envelope_of(json::json_node(content));
            &&& e.event_id == json::node_str(json::json_member(header, "event_id"@))
            &&& e.event_type == json::node_str(json::json_member(header, "event_type"@))
            &&& e.event == json::member_text(json::json_node(content), "event"@)
        }),
{
}

/// A pressed button says what to do by the action in its value.
pub proof fn law_value_names_its_action(value: Seq<char>, action: Seq<char>)
    requires
        json::json_member(value, "action"@) == Some(json::NodeView::Text(action)),
    ensures
        card_action(Some(value)) == action,
        card_action(None).len() == 0,
{
}

/// With every ping the messages that have waited for five minutes are dropped.
pub proof fn law_pings_clean_up(m: Map<Seq<char>, ws_session::EntryView>, id: Seq<char>, service_id: i32, now: u64)
    requires
        m.dom().contains(id),
    ensures
        ({
            let (after, step) = on_event(m, LarkEvent::PingDue, service_id, now);
            &&& step == StepView::SendPing(frame::frame_bytes(frame::ping_frame(service_id)))
            &&& after.dom().contains(id) <==> m[id].created_at + 300_000 > now
            &&& after.dom().contains(id) ==> after[id] == m[id]
        }),
{
    ws_session::law_old_messages_are_dropped(m, id, FRAGMENT_TTL_MS, now);
}

} // verus!
