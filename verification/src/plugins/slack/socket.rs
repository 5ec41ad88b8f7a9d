//! The socket connection: answers, events and what is handed on.
use vstd::prelude::*;
use vstd::string::*;

use super::types as wire;
use super::types::{build_ack, event_to_unified, EventCallback, SocketEnvelope};
use crate::error;
use crate::error::ChannelError;
use crate::json;
use crate::plugins::dedup;
use crate::plugins::dedup::DedupCache;
use crate::text::{cat, str_eq};
use crate::types;
use crate::types::UnifiedIncomingMessage;

verus! {

// ---------------------------------------------------------------------------
// Callbacks
// ---------------------------------------------------------------------------

/// What was seen after a callback: its event id, where it has one.
pub open spec fn seen_after(seen: Map<Seq<char>, u64>, callback: EventCallback, now: u64) -> Map<Seq<char>, u64> {
    match callback.event_id {
        Some(id) => dedup::after_sight(seen, id@, now),
        None => seen,
    }
}

/// Whether a callback was seen before.
pub open spec fn seen_before(seen: Map<Seq<char>, u64>, callback: EventCallback) -> bool {
    callback.event_id matches Some(id) && seen.dom().contains(id@)
}

/// The message that a callback brings: its event, where it is new and for the
/// bot.
pub open spec fn message_of(seen: Map<Seq<char>, u64>, callback: EventCallback, bot_user_id: Seq<char>) -> Option<
    types::IncomingView,
> {
    match callback.event {
        Some(event) => if !seen_before(seen, callback) && wire::is_for_bot(event, bot_user_id) {
            Some(wire::event_view(event, bot_user_id))
        } else {
            None
        },
        None => None,
    }
}

/// What an optional message holds.
pub open spec fn opt_incoming(m: Option<UnifiedIncomingMessage>) -> Option<types::IncomingView> {
    match m {
        Some(x) => Some(x@),
        None => None,
    }
}

/// Handles a callback: it is noted, and its event is handed on where it is new
/// and for the bot.
pub fn handle_event_callback(
    seen: &mut DedupCache,
    callback: &EventCallback,
    bot_user_id: &str,
    now: u64,
) -> (r: Option<UnifiedIncomingMessage>)
    ensures
        final(seen)@ == seen_after(old(seen)@, *callback, now),
        opt_incoming(r) == message_of(old(seen)@, *callback, bot_user_id@),
{
    if let Some(id) = &callback.event_id {
        if seen.is_duplicate(id.as_str(), now) {
            return None;
        }
    }
    match &callback.event {
        Some(event) => event_to_unified(event, bot_user_id),
        None => None,
    }
}

// ---------------------------------------------------------------------------
// The connection
// ---------------------------------------------------------------------------

/// What happens on a connection.
#[derive(Debug)]
pub enum SocketEvent {
    Envelope(SocketEnvelope),
    Unreadable,
    Ping,
    Close,
    ReadError(String),
    Ended,
    OtherMessage,
    Shutdown,
}

/// What the connection does about it, once the answer is sent.
#[derive(Debug)]
pub enum SocketStep {
    Nothing,
    Pong,
    Forward(UnifiedIncomingMessage),
    /// End the connection without a failure.
    Finish,
    Fail(ChannelError),
}

/// What a step holds.
pub enum StepView {
    Nothing,
    Pong,
    Forward(types::IncomingView),
    Finish,
    Fail(error::ErrorView),
}

impl View for SocketStep {
    type V = StepView;

    open spec fn view(&self) -> StepView {
        match self {
            SocketStep::Nothing => StepView::Nothing,
            SocketStep::Pong => StepView::Pong,
            SocketStep::Forward(m) => StepView::Forward(m@),
            SocketStep::Finish => StepView::Finish,
            SocketStep::Fail(e) => StepView::Fail(e@),
        }
    }
}

/// The answer that an event calls for: every envelope with an id gets one.
pub open spec fn answer(event: SocketEvent) -> Option<Seq<char>> {
    match event {
        SocketEvent::Envelope(envelope) => match envelope.envelope_id {
            Some(id) => Some(json::json_text(wire::ack_view(id@))),
            None => None,
        },
        _ => None,
    }
}

/// The callback to handle, where an envelope brings one.
pub open spec fn callback_of(envelope: SocketEnvelope) -> Option<EventCallback> {
    if envelope.envelope_type@ == "events_api"@ {
        envelope.payload
    } else {
        None
    }
}

/// What was seen after an event.
pub open spec fn seen_after_event(seen: Map<Seq<char>, u64>, event: SocketEvent, now: u64) -> Map<Seq<char>, u64> {
    match event {
        SocketEvent::Envelope(envelope) => match callback_of(envelope) {
            Some(callback) => seen_after(seen, callback, now),
            None => seen,
        },
        _ => seen,
    }
}

/// What an event leads to.
pub open spec fn step_of(seen: Map<Seq<char>, u64>, event: SocketEvent, bot_user_id: Seq<char>) -> StepView {
    match event {
        SocketEvent::Envelope(envelope) => if envelope.envelope_type@ == "disconnect"@ {
            StepView::Finish
        } else {
            match callback_of(envelope) {
                Some(callback) => match message_of(seen, callback, bot_user_id) {
                    Some(m) => StepView::Forward(m),
                    None => StepView::Nothing,
                },
                None => StepView::Nothing,
            }
        },
        SocketEvent::Unreadable => StepView::Nothing,
        SocketEvent::Ping => StepView::Pong,
        SocketEvent::Close => StepView::Finish,
        SocketEvent::ReadError(e) => StepView::Fail(
            error::ErrorView::ConnectionFailed("Slack WS read error: "@ + e@),
        ),
        SocketEvent::Ended => StepView::Fail(
            error::ErrorView::ConnectionFailed("Slack WS stream ended unexpectedly"@),
        ),
        SocketEvent::OtherMessage => StepView::Nothing,
        SocketEvent::Shutdown => StepView::Finish,
    }
}

proof fn lemma_types_differ()
    ensures
        "disconnect"@ != "events_api"@,
{
    reveal_strlit("disconnect");
    reveal_strlit("events_api");
    assert("disconnect"@[0] == 'd');
    assert("events_api"@[0] == 'e');
}

/// Handles what happens on the connection: the answer to send first, and what
/// follows.
pub fn step(seen: &mut DedupCache, event: &SocketEvent, bot_user_id: &str, now: u64) -> (r: (
    Option<String>,
    SocketStep,
))
    ensures
        types::opt_text(r.0) == answer(*event),
        r.1@ == step_of(old(seen)@, *event, bot_user_id@),
        final(seen)@ == seen_after_event(old(seen)@, *event, now),
{
    proof {
        lemma_types_differ();
    }
    match event {
        SocketEvent::Envelope(envelope) => {
            let ack = match &envelope.envelope_id {
                Some(id) => Some(build_ack(id.as_str())),
                None => None,
            };
            if str_eq(envelope.envelope_type.as_str(), "disconnect") {
                return (ack, SocketStep::Finish);
            }
            if !str_eq(envelope.envelope_type.as_str(), "events_api") {
                return (ack, SocketStep::Nothing);
            }
            let next = match &envelope.payload {
                Some(callback) => match handle_event_callback(seen, callback, bot_user_id, now) {
                    Some(m) => SocketStep::Forward(m),
                    None => SocketStep::Nothing,
                },
                None => SocketStep::Nothing,
            };
            (ack, next)
        },
        SocketEvent::Unreadable => (None, SocketStep::Nothing),
        SocketEvent::Ping => (None, SocketStep::Pong),
        SocketEvent::Close => (None, SocketStep::Finish),
        SocketEvent::ReadError(e) => (
            None,
            SocketStep::Fail(ChannelError::ConnectionFailed(cat("Slack WS read error: ", e.as_str()))),
        ),
        SocketEvent::Ended => (
            None,
            SocketStep::Fail(ChannelError::ConnectionFailed("Slack WS stream ended unexpectedly".to_owned())),
        ),
        SocketEvent::OtherMessage => (None, SocketStep::Nothing),
        SocketEvent::Shutdown => (None, SocketStep::Finish),
    }
}

// ---------------------------------------------------------------------------
// Laws
// ---------------------------------------------------------------------------

/// An event that is delivered again brings no second message.
pub proof fn law_redelivery_is_silent(
    seen: Map<Seq<char>, u64>,
    callback: EventCallback,
    bot_user_id: Seq<char>,
    now: u64,
)
    requires
        callback.event_id is Some,
    ensures
        message_of(seen_after(seen, callback, now), callback, bot_user_id) is None,
{
}

/// Every envelope with an id is answered with that id, whatever it carries.
pub proof fn law_every_envelope_is_answered(envelope: SocketEnvelope, id: Seq<char>)
    requires
        types::opt_text(envelope.envelope_id) == Some(id),
    ensures
        answer(SocketEvent::Envelope(envelope)) == Some(json::json_text(wire::ack_view(id))),
{
}

/// A new event for the bot is forwarded as the message that it is; nothing else is
/// forwarded.
pub proof fn law_new_events_are_forwarded(
    seen: Map<Seq<char>, u64>,
    envelope: SocketEnvelope,
    bot_user_id: Seq<char>,
)
    ensures
        ({
            let step = step_of(seen, SocketEvent::Envelope(envelope), bot_user_id);
            let event = envelope.payload->0.event;
            let new = match envelope.payload->0.event_id {
                Some(id) => !seen.dom().contains(id@),
                None => true,
            };
            &&& step is Forward <==> {
                &&& envelope.envelope_type@ == "events_api"@
                &&& envelope.payload is Some
                &&& event is Some
                &&& new
                &&& wire::is_for_bot(event->0, bot_user_id)
            }
            &&& step is Forward ==> step == StepView::Forward(wire::event_view(event->0, bot_user_id))
        }),
{
    lemma_types_differ();
}

/// The connection ends quietly where the platform asks for it, closes it or it is no
/// longer wanted, and fails where it breaks; a ping is answered.
pub proof fn law_connection_ends_as_it_should(seen: Map<Seq<char>, u64>, event: SocketEvent, bot_user_id: Seq<char>)
    ensures
        step_of(seen, event, bot_user_id) is Finish <==> (event is Close || event is Shutdown || (
        event matches SocketEvent::Envelope(e) && e.envelope_type@ == "disconnect"@)),
        step_of(seen, event, bot_user_id) is Fail <==> event is ReadError || event is Ended,
        step_of(seen, event, bot_user_id) is Pong <==> event is Ping,
{
}

/// The answer to an envelope names that envelope.
pub proof fn law_answer_names_the_envelope(id: Seq<char>)
    ensures
        json::field(wire::ack_view(id), "envelope_id"@) == Some(json::JsonView::Text(id)),
{
    broadcast use json::group_fields;

}

/// Only an event that was delivered is noted as seen.
pub proof fn law_only_events_are_noted(seen: Map<Seq<char>, u64>, event: SocketEvent, now: u64)
    ensures
        !(event is Envelope) ==> seen_after_event(seen, event, now) == seen,
        event matches SocketEvent::Envelope(envelope) ==> (callback_of(envelope) is None ==> seen_after_event(
            seen,
            event,
            now,
        ) == seen),
        event matches SocketEvent::Envelope(envelope) ==> (callback_of(envelope) is Some ==> seen_after_event(
            seen,
            event,
            now,
        ) == seen_after(seen, callback_of(envelope)->0, now)),
{
}

} // verus!
