//! The gateway connection: opening, heartbeat, dispatch and resumption.
use vstd::prelude::*;
use vstd::string::*;

use super::op;
use super::types as wire;
use super::types::{
    build_heartbeat, build_identify, build_resume, message_to_unified, GatewayFrame, Hello, MessageCreate, Ready,
};
use crate::error;
use crate::error::ChannelError;
use crate::json;
use crate::json::{parse_node, JsonNode};
use crate::plugins::dedup;
use crate::plugins::dedup::DedupCache;
use crate::text;
use crate::text::{cat, str_eq, trim_tail, u64_text};
use crate::types;
use crate::types::UnifiedIncomingMessage;

verus! {

// ---------------------------------------------------------------------------
// Sessions
// ---------------------------------------------------------------------------

/// What outlives a connection.
#[derive(Debug)]
pub struct Session {
    pub id: Option<String>,
    pub resume_url: Option<String>,
    pub last_seq: Option<u64>,
}

/// What a session holds.
pub struct SessionView {
    pub id: Option<Seq<char>>,
    pub resume_url: Option<Seq<char>>,
    pub last_seq: Option<u64>,
}

impl View for Session {
    type V = SessionView;

    open spec fn view(&self) -> SessionView {
        SessionView {
            id: types::opt_text(self.id),
            resume_url: types::opt_text(self.resume_url),
            last_seq: self.last_seq,
        }
    }
}

/// No session.
pub open spec fn no_session() -> SessionView {
    SessionView { id: None, resume_url: None, last_seq: None }
}

impl Session {
    /// No session.
    pub fn new() -> (r: Self)
        ensures
            r@ == no_session(),
    {
        Session { id: None, resume_url: None, last_seq: None }
    }
}

/// The address at which a session can be taken up again, where there is one.
pub open spec fn resume_target(s: SessionView) -> Option<Seq<char>> {
    if s.id is Some {
        s.resume_url
    } else {
        None
    }
}

/// The address at which a session can be taken up again; where there is none, a
/// fresh address has to be asked for.
pub fn plan_connection(session: &Session) -> (r: Option<String>)
    ensures
        types::opt_text(r) == resume_target(session@),
{
    if session.id.is_some() {
        types::copy_opt(&session.resume_url)
    } else {
        None
    }
}

/// The address to connect to.
pub open spec fn ws_url(base: Seq<char>) -> Seq<char> {
    text::without_tail(base, '/') + "/?v=10&encoding=json"@
}

/// The address to connect to.
pub fn gateway_ws_url(base: &str) -> (r: String)
    ensures
        r@ == ws_url(base@),
{
    cat(trim_tail(base, '/').as_str(), "/?v=10&encoding=json")
}

// ---------------------------------------------------------------------------
// Opening
// ---------------------------------------------------------------------------

/// The first thing that comes over a connection.
#[derive(Debug)]
pub enum FirstMessage {
    /// A frame, with the data of a hello where it holds one.
    Frame(u8, Option<Hello>),
    /// A text that is no frame, with what is wrong about it.
    Unreadable(String),
    /// Anything else.
    Other,
}

/// What is wrong with a first message, if anything.
pub open spec fn hello_fault(first: FirstMessage) -> Option<Seq<char>> {
    match first {
        FirstMessage::Frame(code, hello) => if code != op::HELLO {
            Some("Discord expected Hello, got op "@ + text::nat_text(code as nat))
        } else if hello is None {
            Some("Discord Hello missing heartbeat_interval"@)
        } else {
            None
        },
        FirstMessage::Unreadable(e) => Some("Discord Hello parse failed: "@ + e@),
        FirstMessage::Other => Some("Discord did not send Hello"@),
    }
}

/// The milliseconds between heartbeats, as the first message gives them.
pub fn heartbeat_interval(first: FirstMessage) -> (r: Result<u64, ChannelError>)
    ensures
        match r {
            Ok(ms) => hello_fault(first) is None && (first matches FirstMessage::Frame(_, Some(h))
                && h.heartbeat_interval == ms),
            Err(e) => hello_fault(first) is Some && e@ == error::ErrorView::ConnectionFailed(hello_fault(first)->0),
        },
{
    match first {
        FirstMessage::Frame(code, hello) => if code != op::HELLO {
            Err(ChannelError::ConnectionFailed(cat("Discord expected Hello, got op ", u64_text(code as u64).as_str())))
        } else {
            match hello {
                Some(h) => Ok(h.heartbeat_interval),
                None => Err(ChannelError::ConnectionFailed("Discord Hello missing heartbeat_interval".to_owned())),
            }
        },
        FirstMessage::Unreadable(e) => Err(
            ChannelError::ConnectionFailed(cat("Discord Hello parse failed: ", e.as_str())),
        ),
        FirstMessage::Other => Err(ChannelError::ConnectionFailed("Discord did not send Hello".to_owned())),
    }
}

/// The frame that opens a connection: it takes the session up again where it
/// is asked to and knows how far the session came.
pub open spec fn opening(resume: bool, s: SessionView, token: Seq<char>) -> json::JsonView {
    match (s.id, s.last_seq) {
        (Some(id), Some(seq)) => if resume {
            wire::resume_view(token, id, seq)
        } else {
            wire::identify_view(token)
        },
        _ => wire::identify_view(token),
    }
}

/// The frame that opens a connection.
pub fn opening_frame(resume: bool, session: &Session, token: &str) -> (r: String)
    ensures
        r@ == json::json_text(opening(resume, session@, token@)),
{
    match (&session.id, session.last_seq) {
        (Some(id), Some(seq)) => if resume {
            build_resume(token, id.as_str(), seq)
        } else {
            build_identify(token)
        },
        _ => build_identify(token),
    }
}

// ---------------------------------------------------------------------------
// Running
// ---------------------------------------------------------------------------

/// A running connection.
#[derive(Debug)]
pub struct Gateway {
    pub session: Session,
    /// Whether the last heartbeat was answered.
    pub acked: bool,
    /// The messages that were seen.
    pub seen: DedupCache,
}

/// What a running connection holds.
#[verifier::ext_equal]
pub struct GatewayView {
    pub session: SessionView,
    pub acked: bool,
    pub seen: Map<Seq<char>, u64>,
}

impl View for Gateway {
    type V = GatewayView;

    open spec fn view(&self) -> GatewayView {
        GatewayView { session: self.session@, acked: self.acked, seen: self.seen@ }
    }
}

/// What happens on a running connection. A frame comes with what its data is
/// as a READY and as a MESSAGE_CREATE dispatch, where it is one.
#[derive(Debug)]
pub enum GatewayEvent {
    Frame(GatewayFrame, Option<Ready>, Option<MessageCreate>),
    Unreadable,
    Ping,
    Close,
    ReadError(String),
    Ended,
    OtherMessage,
    Tick,
    Shutdown,
}

/// What the connection does about it.
#[derive(Debug)]
pub enum GatewayStep {
    Nothing,
    Send(String),
    Pong,
    Forward(UnifiedIncomingMessage),
    Reconnect,
    Shutdown,
    Fail(ChannelError),
}

/// What a step holds.
pub enum StepView {
    Nothing,
    Send(Seq<char>),
    Pong,
    Forward(types::IncomingView),
    Reconnect,
    Shutdown,
    Fail(error::ErrorView),
}

impl View for GatewayStep {
    type V = StepView;

    open spec fn view(&self) -> StepView {
        match self {
            GatewayStep::Nothing => StepView::Nothing,
            GatewayStep::Send(s) => StepView::Send(s@),
            GatewayStep::Pong => StepView::Pong,
            GatewayStep::Forward(m) => StepView::Forward(m@),
            GatewayStep::Reconnect => StepView::Reconnect,
            GatewayStep::Shutdown => StepView::Shutdown,
            GatewayStep::Fail(e) => StepView::Fail(e@),
        }
    }
}

/// A dispatch of a session that begins.
pub open spec fn on_ready(g: GatewayView, ready: Option<Ready>) -> GatewayView {
    match ready {
        Some(r) => GatewayView {
            session: SessionView {
                id: Some(r.session_id@),
                resume_url: Some(r.resume_gateway_url@),
                ..g.session
            },
            ..g
        },
        None => g,
    }
}

/// A dispatch of a message: it goes on where it is new and for the bot.
pub open spec fn on_message(
    g: GatewayView,
    message: Option<MessageCreate>,
    bot_user_id: Seq<char>,
    now: u64,
) -> (GatewayView, StepView) {
    match message {
        None => (g, StepView::Nothing),
        Some(m) => {
            let after = GatewayView { seen: dedup::after_sight(g.seen, m.id@, now), ..g };
            if !g.seen.dom().contains(m.id@) && wire::is_for_bot(m, bot_user_id) {
                (after, StepView::Forward(wire::message_view(m, bot_user_id)))
            } else {
                (after, StepView::Nothing)
            }
        },
    }
}

/// A dispatch, by its name.
pub open spec fn on_dispatch(
    g: GatewayView,
    name: Option<Seq<char>>,
    ready: Option<Ready>,
    message: Option<MessageCreate>,
    bot_user_id: Seq<char>,
    now: u64,
) -> (GatewayView, StepView) {
    if name == Some("READY"@) {
        (on_ready(g, ready), StepView::Nothing)
    } else if name == Some("MESSAGE_CREATE"@) {
        on_message(g, message, bot_user_id, now)
    } else {
        (g, StepView::Nothing)
    }
}

/// Whether the data of a frame is the word `true`.
pub open spec fn says_true(d: Option<String>) -> bool {
    match d {
        Some(s) => json::json_node(s@) == Some(json::NodeView::Bool(true)),
        None => false,
    }
}

/// The state once the number of a frame is noted.
pub open spec fn numbered(g: GatewayView, s: Option<u64>) -> GatewayView {
    match s {
        Some(n) => GatewayView { session: SessionView { last_seq: Some(n), ..g.session }, ..g },
        None => g,
    }
}

/// What a frame does.
pub open spec fn on_frame(
    g0: GatewayView,
    frame: GatewayFrame,
    ready: Option<Ready>,
    message: Option<MessageCreate>,
    bot_user_id: Seq<char>,
    now: u64,
) -> (GatewayView, StepView) {
    let g = numbered(g0, frame.s);
    if frame.op == op::HEARTBEAT {
        (g, StepView::Send(json::json_text(wire::heartbeat_view(g.session.last_seq))))
    } else if frame.op == op::HEARTBEAT_ACK {
        (GatewayView { acked: true, ..g }, StepView::Nothing)
    } else if frame.op == op::RECONNECT {
        (g, StepView::Reconnect)
    } else if frame.op == op::INVALID_SESSION {
        if says_true(frame.d) {
            (g, StepView::Reconnect)
        } else {
            (GatewayView { session: no_session(), ..g }, StepView::Reconnect)
        }
    } else if frame.op == op::DISPATCH {
        on_dispatch(g, types::opt_text(frame.t), ready, message, bot_user_id, now)
    } else {
        (g, StepView::Nothing)
    }
}

/// What an event does.
pub open spec fn on_event(g: GatewayView, event: GatewayEvent, bot_user_id: Seq<char>, now: u64) -> (
    GatewayView,
    StepView,
) {
    match event {
        GatewayEvent::Frame(frame, ready, message) => on_frame(g, frame, ready, message, bot_user_id, now),
        GatewayEvent::Unreadable => (g, StepView::Nothing),
        GatewayEvent::Ping => (g, StepView::Pong),
        GatewayEvent::Close => (g, StepView::Reconnect),
        GatewayEvent::ReadError(e) => (
            g,
            StepView::Fail(error::ErrorView::ConnectionFailed("Discord WS read error: "@ + e@)),
        ),
        GatewayEvent::Ended => (
            g,
            StepView::Fail(error::ErrorView::ConnectionFailed("Discord WS stream ended"@)),
        ),
        GatewayEvent::OtherMessage => (g, StepView::Nothing),
        GatewayEvent::Tick => if g.acked {
            (
                GatewayView { acked: false, ..g },
                StepView::Send(json::json_text(wire::heartbeat_view(g.session.last_seq))),
            )
        } else {
            (g, StepView::Fail(error::ErrorView::ConnectionFailed("Discord heartbeat ACK missing"@)))
        },
        GatewayEvent::Shutdown => (g, StepView::Shutdown),
    }
}

impl Gateway {
    /// A connection that was just opened.
    pub fn new(session: Session, seen: DedupCache) -> (r: Self)
        ensures
            r@ == (GatewayView { session: session@, acked: true, seen: seen@ }),
    {
        Gateway { session, acked: true, seen }
    }

    /// Handles a dispatch: notes a session that begins, and hands on a message
    /// that is new and for the bot.
    pub fn handle_dispatch(
        &mut self,
        frame: &GatewayFrame,
        ready: Option<Ready>,
        message: Option<MessageCreate>,
        bot_user_id: &str,
        now: u64,
    ) -> (r: Option<UnifiedIncomingMessage>)
        ensures
            (final(self)@, match r {
                Some(m) => StepView::Forward(m@),
                None => StepView::Nothing,
            }) == on_dispatch(old(self)@, types::opt_text(frame.t), ready, message, bot_user_id@, now),
    {
        match &frame.t {
            None => None,
            Some(name) => if str_eq(name.as_str(), "READY") {
                match ready {
                    Some(r) => {
                        self.session.id = Some(r.session_id);
                        self.session.resume_url = Some(r.resume_gateway_url);
                    },
                    None => {},
                }
                None
            } else if str_eq(name.as_str(), "MESSAGE_CREATE") {
                match message {
                    None => None,
                    Some(m) => if self.seen.is_duplicate(m.id.as_str(), now) {
                        None
                    } else {
                        message_to_unified(&m, bot_user_id)
                    },
                }
            } else {
                None
            },
        }
    }

    fn handle_frame(
        &mut self,
        frame: &GatewayFrame,
        ready: Option<Ready>,
        message: Option<MessageCreate>,
        bot_user_id: &str,
        now: u64,
    ) -> (r: GatewayStep)
        ensures
            (final(self)@, r@) == on_frame(old(self)@, *frame, ready, message, bot_user_id@, now),
    {
        if let Some(n) = frame.s {
            self.session.last_seq = Some(n);
        }
        assert(self@ == numbered(old(self)@, frame.s));
        if frame.op == op::HEARTBEAT {
            GatewayStep::Send(build_heartbeat(self.session.last_seq))
        } else if frame.op == op::HEARTBEAT_ACK {
            self.acked = true;
            GatewayStep::Nothing
        } else if frame.op == op::RECONNECT {
            GatewayStep::Reconnect
        } else if frame.op == op::INVALID_SESSION {
            let resumable = match &frame.d {
                Some(d) => match parse_node(d.as_str()) {
                    Some(JsonNode::Bool(b)) => b,
                    _ => false,
                },
                None => false,
            };
            if !resumable {
                self.session = Session::new();
            }
            GatewayStep::Reconnect
        } else if frame.op == op::DISPATCH {
            match self.handle_dispatch(frame, ready, message, bot_user_id, now) {
                Some(m) => GatewayStep::Forward(m),
                None => GatewayStep::Nothing,
            }
        } else {
            GatewayStep::Nothing
        }
    }

    /// Handles what happens on the connection.
    pub fn step(&mut self, event: GatewayEvent, bot_user_id: &str, now: u64) -> (r: GatewayStep)
        ensures
            (final(self)@, r@) == on_event(old(self)@, event, bot_user_id@, now),
    {
        match event {
            GatewayEvent::Frame(frame, ready, message) => self.handle_frame(&frame, ready, message, bot_user_id, now),
            GatewayEvent::Unreadable => GatewayStep::Nothing,
            GatewayEvent::Ping => GatewayStep::Pong,
            GatewayEvent::Close => GatewayStep::Reconnect,
            GatewayEvent::ReadError(e) => GatewayStep::Fail(
                ChannelError::ConnectionFailed(cat("Discord WS read error: ", e.as_str())),
            ),
            GatewayEvent::Ended => GatewayStep::Fail(
                ChannelError::ConnectionFailed("Discord WS stream ended".to_owned()),
            ),
            GatewayEvent::OtherMessage => GatewayStep::Nothing,
            GatewayEvent::Tick => if self.acked {
                self.acked = false;
                GatewayStep::Send(build_heartbeat(self.session.last_seq))
            } else {
                GatewayStep::Fail(ChannelError::ConnectionFailed("Discord heartbeat ACK missing".to_owned()))
            },
            GatewayEvent::Shutdown => GatewayStep::Shutdown,
        }
    }
}

// ---------------------------------------------------------------------------
// Laws
// ---------------------------------------------------------------------------

/// After a READY dispatch the next connection takes the session up again, at
/// the address that the dispatch gave.
pub proof fn law_ready_session_is_resumed(g: GatewayView, ready: Ready)
    ensures
        resume_target(on_ready(g, Some(ready)).session) == Some(ready.resume_gateway_url@),
{
}

/// After a session that cannot be taken up again, the next connection opens a
/// new one.
pub proof fn law_invalid_session_starts_afresh(
    g: GatewayView,
    frame: GatewayFrame,
    bot_user_id: Seq<char>,
    token: Seq<char>,
    now: u64,
)
    requires
        frame.op == op::INVALID_SESSION,
        !says_true(frame.d),
    ensures
        ({
            let (after, step) = on_frame(g, frame, None, None, bot_user_id, now);
            &&& step == StepView::Reconnect
            &&& resume_target(after.session) is None
            &&& opening(true, after.session, token) == wire::identify_view(token)
        }),
{
}

/// A connection on which a heartbeat stays without an answer until the next one
/// is due fails there.
pub proof fn law_silent_connection_fails(g: GatewayView, bot_user_id: Seq<char>, now: u64, later: u64)
    requires
        g.acked,
    ensures
        ({
            let (once, first) = on_event(g, GatewayEvent::Tick, bot_user_id, now);
            let (_, second) = on_event(once, GatewayEvent::Tick, bot_user_id, later);
            &&& first == StepView::Send(json::json_text(wire::heartbeat_view(g.session.last_seq)))
            &&& second is Fail
        }),
{
}

/// An answer keeps the connection alive.
pub proof fn law_answered_connection_lives(
    g: GatewayView,
    ack: GatewayFrame,
    bot_user_id: Seq<char>,
    now: u64,
    later: u64,
)
    requires
        ack.op == op::HEARTBEAT_ACK,
    ensures
        ({
            let (answered, _) = on_event(g, GatewayEvent::Frame(ack, None, None), bot_user_id, now);
            let (_, next) = on_event(answered, GatewayEvent::Tick, bot_user_id, later);
            next is Send
        }),
{
}

/// The same message is never handed on twice.
pub proof fn law_message_is_forwarded_once(
    g: GatewayView,
    message: MessageCreate,
    bot_user_id: Seq<char>,
    now: u64,
    later: u64,
)
    ensures
        ({
            let (once, _) = on_message(g, Some(message), bot_user_id, now);
            on_message(once, Some(message), bot_user_id, later) == (once, StepView::Nothing)
        }),
{
}

proof fn lemma_without_tail_prefix(s: Seq<char>, c: char)
    ensures
        text::without_tail(s, c).len() <= s.len(),
        text::without_tail(s, c) == s.take(text::without_tail(s, c).len() as int),
    decreases s.len(),
{
    if s.len() > 0 && s.last() == c {
        lemma_without_tail_prefix(s.drop_last(), c);
        let short = text::without_tail(s, c);
        assert(s.drop_last().take(short.len() as int) =~= s.take(short.len() as int));
    } else {
        assert(s.take(s.len() as int) =~= s);
    }
}

/// An address without a query gets exactly one.
pub proof fn law_one_query(base: Seq<char>)
    requires
        forall|i: int| 0 <= i < base.len() ==> base[i] != '?',
    ensures
        text::split_at_char(ws_url(base), '?') == seq![
            text::without_tail(base, '/') + "/"@,
            "v=10&encoding=json"@,
        ],
{
    let head = text::without_tail(base, '/');
    let url = ws_url(base);
    lemma_without_tail_prefix(base, '/');
    reveal_strlit("/?v=10&encoding=json");
    reveal_strlit("/");
    reveal_strlit("v=10&encoding=json");
    let rest = "v=10&encoding=json"@;
    assert forall|i: int| 0 <= i < head.len() + 1 implies url[i] != '?' by {
        if i < head.len() {
            assert(head[i] == base[i]);
        }
    }
    text::lemma_index_unique(url, '?', head.len() as int + 1);
    assert(url.take(head.len() as int + 1) =~= head + "/"@);
    assert(url.skip(head.len() as int + 2) =~= rest);
    text::lemma_index_unique(rest, '?', rest.len() as int);
    assert(text::split_at_char(rest, '?') == seq![rest]);
    assert(seq![head + "/"@] + seq![rest] =~= seq![head + "/"@, rest]);
}

/// A frame does what its code says: a heartbeat that is asked for is sent, a request to
/// reconnect is followed, and the answer to a heartbeat is noted. The number of every
/// frame is kept, for the next heartbeat and for taking the session up again.
pub proof fn law_frames_do_what_they_say(
    g: GatewayView,
    frame: GatewayFrame,
    ready: Option<Ready>,
    message: Option<MessageCreate>,
    bot_user_id: Seq<char>,
    now: u64,
)
    ensures
        ({
            let (after, step) = on_frame(g, frame, ready, message, bot_user_id, now);
            let last = if frame.s is Some {
                frame.s
            } else {
                g.session.last_seq
            };
            &&& frame.op == 1 ==> step == StepView::Send(json::json_text(wire::heartbeat_view(last)))
            &&& step is Send <==> frame.op == 1
            &&& step is Reconnect <==> frame.op == 7 || frame.op == 9
            &&& frame.op == 11 ==> after.acked && step is Nothing
            &&& frame.op != 11 ==> after.acked == g.acked
            &&& frame.op != 9 ==> after.session.last_seq == last
            &&& frame.op != 9 && frame.op != 0 ==> after.session.id == g.session.id && after.session.resume_url
                == g.session.resume_url
            &&& frame.op == 9 && says_true(frame.d) ==> after.session == (SessionView { last_seq: last, ..g.session })
            &&& frame.op != 0 ==> after.seen == g.seen
        }),
{
}

/// A new message for the bot is forwarded as what it is, and nothing else is forwarded.
pub proof fn law_new_messages_are_forwarded(
    g: GatewayView,
    frame: GatewayFrame,
    ready: Option<Ready>,
    message: Option<MessageCreate>,
    bot_user_id: Seq<char>,
    now: u64,
)
    ensures
        ({
            let step = on_frame(g, frame, ready, message, bot_user_id, now).1;
            &&& step is Forward <==> {
                &&& frame.op == 0
                &&& frame.t matches Some(t) && t@ == "MESSAGE_CREATE"@
                &&& message is Some
                &&& !g.seen.dom().contains(message->0.id@)
                &&& wire::is_for_bot(message->0, bot_user_id)
            }
            &&& step is Forward ==> step == StepView::Forward(wire::message_view(message->0, bot_user_id))
        }),
{
    reveal_strlit("READY");
    reveal_strlit("MESSAGE_CREATE");
    assert("READY"@.len() == 5 && "MESSAGE_CREATE"@.len() == 14);
}

/// A session that began is taken up again by its id and with the last number that was
/// seen; without a session, or where none is to be taken up, a new one is opened.
pub proof fn law_session_is_taken_up_again(
    g: GatewayView,
    frame: GatewayFrame,
    ready: Ready,
    seq: u64,
    bot_user_id: Seq<char>,
    token: Seq<char>,
    now: u64,
)
    requires
        frame.op == 0,
        frame.t matches Some(t) && t@ == "READY"@,
        frame.s == Some(seq),
    ensures
        ({
            let after = on_frame(g, frame, Some(ready), None, bot_user_id, now).0;
            &&& after.session.id == Some(ready.session_id@)
            &&& resume_target(after.session) == Some(ready.resume_gateway_url@)
            &&& opening(true, after.session, token) == wire::resume_view(token, ready.session_id@, seq)
            &&& opening(false, after.session, token) == wire::identify_view(token)
            &&& opening(true, no_session(), token) == wire::identify_view(token)
            &&& resume_target(no_session()) is None
        }),
{
}

/// A connection is opened by a hello that says how often the heart is to beat, and by
/// nothing else.
pub proof fn law_connection_opens_with_a_hello(first: FirstMessage)
    ensures
        hello_fault(first) is None <==> (first matches FirstMessage::Frame(code, hello) && code == 10 && hello is Some),
{
}

/// A connection that is closed is made again, one that breaks fails, and one that is no
/// longer wanted ends.
pub proof fn law_connection_ends_as_it_should(g: GatewayView, event: GatewayEvent, bot_user_id: Seq<char>, now: u64)
    requires
        !(event is Frame),
    ensures
        on_event(g, event, bot_user_id, now).1 is Reconnect <==> event is Close,
        on_event(g, event, bot_user_id, now).1 is Shutdown <==> event is Shutdown,
        on_event(g, event, bot_user_id, now).1 is Pong <==> event is Ping,
        on_event(g, event, bot_user_id, now).1 is Fail <==> event is ReadError || event is Ended || (event is Tick
            && !g.acked),
        on_event(g, event, bot_user_id, now).0.session == g.session,
        on_event(g, event, bot_user_id, now).0.seen == g.seen,
{
}

} // verus!
