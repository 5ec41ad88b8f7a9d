//! What happens to the outcome of a message.
use vstd::prelude::*;
use vstd::string::*;

use crate::action::MessageResult;
use crate::error::ChannelError;
use crate::types;
use crate::types::{
    copy_keyboard, copy_rows, text_message, ActionBehavior, ActionResponse, OutgoingMessageType,
    UnifiedOutgoingMessage,
};

verus! {

/// The decisions between a message and its answer. It keeps nothing: messages
/// come and go outside.
pub struct ChannelOrchestrator;

/// What goes out for a response.
#[derive(Debug)]
pub enum Delivery {
    /// A new message.
    Send(UnifiedOutgoingMessage),
    /// A new text for an old message.
    Edit { message_id: String, message: UnifiedOutgoingMessage },
    /// Nothing.
    Nothing,
}

/// What a delivery holds.
pub enum DeliveryView {
    Send(types::OutgoingView),
    Edit { message_id: Seq<char>, message: types::OutgoingView },
    Nothing,
}

impl View for Delivery {
    type V = DeliveryView;

    open spec fn view(&self) -> DeliveryView {
        match self {
            Delivery::Send(m) => DeliveryView::Send(m@),
            Delivery::Edit { message_id, message } => DeliveryView::Edit { message_id: message_id@, message: message@ },
            Delivery::Nothing => DeliveryView::Nothing,
        }
    }
}

/// The message that carries a response's text.
pub open spec fn response_message(r: types::ResponseView) -> types::OutgoingView {
    types::OutgoingView {
        text: r.text,
        parse_mode: r.parse_mode,
        buttons: r.buttons,
        keyboard: r.keyboard,
        ..types::text_message_view(types::text_or_empty(r.text))
    }
}

/// What goes out for a response: nothing without a text, an edit where the
/// response asks for one and names the message, and else a new message.
pub open spec fn response_delivery(r: types::ResponseView) -> DeliveryView {
    if r.text is None {
        DeliveryView::Nothing
    } else if r.behavior == ActionBehavior::Edit {
        match r.edit_message_id {
            Some(id) => DeliveryView::Edit { message_id: id, message: response_message(r) },
            None => DeliveryView::Nothing,
        }
    } else {
        DeliveryView::Send(response_message(r))
    }
}

impl ChannelOrchestrator {
    /// What goes out for a response.
    pub fn send_action_response(response: &ActionResponse) -> (r: Delivery)
        ensures
            r@ == response_delivery(response@),
    {
        match &response.text {
            None => Delivery::Nothing,
            Some(text) => {
                let outgoing = UnifiedOutgoingMessage {
                    message_type: OutgoingMessageType::Text,
                    text: Some(text.clone()),
                    parse_mode: response.parse_mode,
                    buttons: copy_rows(&response.buttons),
                    keyboard: copy_keyboard(&response.keyboard),
                    image_url: None,
                    file_url: None,
                    file_name: None,
                    media_actions: None,
                    reply_to_message_id: None,
                    silent: None,
                };
                match response.behavior {
                    ActionBehavior::Edit => match &response.edit_message_id {
                        Some(id) => Delivery::Edit { message_id: id.clone(), message: outgoing },
                        None => Delivery::Nothing,
                    },
                    _ => Delivery::Send(outgoing),
                }
            },
        }
    }
}

/// The message that tells a user that the agent could not be reached.
pub fn failure_message(e: &ChannelError) -> (r: UnifiedOutgoingMessage)
    ensures
        r@ == types::text_message_view("\u{274c} Failed to process: "@ + crate::error::error_text(e@)),
{
    let mut text = "\u{274c} Failed to process: ".to_owned();
    text.append(e.message().as_str());
    text_message(text)
}

/// Where the outcome of a message goes.
#[derive(Debug)]
pub enum Routing {
    /// To the chat, through a plugin of the owner.
    Deliver { owner_user_id: String, delivery: Delivery },
    /// To the agent of a session.
    Dispatch { owner_user_id: String, session_id: String, conversation_id: Option<String> },
    /// Nowhere.
    Nothing,
}

/// Where the outcome of a message goes.
pub enum RoutingView {
    Deliver { owner_user_id: Seq<char>, delivery: DeliveryView },
    Dispatch { owner_user_id: Seq<char>, session_id: Seq<char>, conversation_id: Option<Seq<char>> },
    Nothing,
}

impl View for Routing {
    type V = RoutingView;

    open spec fn view(&self) -> RoutingView {
        match self {
            Routing::Deliver { owner_user_id, delivery } => RoutingView::Deliver {
                owner_user_id: owner_user_id@,
                delivery: delivery@,
            },
            Routing::Dispatch { owner_user_id, session_id, conversation_id } => RoutingView::Dispatch {
                owner_user_id: owner_user_id@,
                session_id: session_id@,
                conversation_id: types::opt_text(*conversation_id),
            },
            Routing::Nothing => RoutingView::Nothing,
        }
    }
}

/// Where the outcome of a message goes; a response without an owner is dropped.
pub open spec fn route(owner: Option<Seq<char>>, result: Result<MessageResult, ChannelError>) -> RoutingView {
    match result {
        Ok(MessageResult::Action(response)) => match owner {
            Some(o) => RoutingView::Deliver { owner_user_id: o, delivery: response_delivery(response@) },
            None => RoutingView::Nothing,
        },
        Ok(MessageResult::Dispatched { owner_user_id, session_id, conversation_id }) => RoutingView::Dispatch {
            owner_user_id: owner_user_id@,
            session_id: session_id@,
            conversation_id: types::opt_text(conversation_id),
        },
        Ok(MessageResult::AlreadyProcessing) => RoutingView::Nothing,
        Err(_) => RoutingView::Nothing,
    }
}

impl ChannelOrchestrator {
    /// Where the outcome of a message goes. The owner is the one that the message
    /// names, or else `default_owner`.
    pub fn handle_message(
        message_owner: &Option<String>,
        default_owner: Option<&str>,
        result: Result<MessageResult, ChannelError>,
    ) -> (r: Routing)
        ensures
            r@ == route(
                match types::opt_text(*message_owner) {
                    Some(o) => Some(o),
                    None => types::opt_str(default_owner),
                },
                result,
            ),
    {
        match result {
            Ok(MessageResult::Action(response)) => {
                let owner = match message_owner {
                    Some(o) => Some(o.clone()),
                    None => match default_owner {
                        Some(o) => Some(o.to_owned()),
                        None => None,
                    },
                };
                match owner {
                    Some(owner_user_id) => Routing::Deliver { owner_user_id, delivery: Self::send_action_response(&response) },
                    None => Routing::Nothing,
                }
            },
            Ok(MessageResult::Dispatched { owner_user_id, session_id, conversation_id }) => Routing::Dispatch {
                owner_user_id,
                session_id,
                conversation_id,
            },
            Ok(MessageResult::AlreadyProcessing) => Routing::Nothing,
            Err(_) => Routing::Nothing,
        }
    }
}

/// What has become known about a text that goes to the agent of a session.
#[derive(Debug, PartialEq, Eq)]
pub enum DispatchEvent {
    /// The session is there, or not.
    Session { found: bool },
    /// The text was handed over; whether events are coming back.
    Sent { conversation_id: String, streaming: bool },
    /// The text could not be handed over.
    Failed(ChannelError),
    /// The session was told its conversation, whether or not it took it;
    /// whether events are coming back.
    Bound { streaming: bool },
}

/// What to do next about a text that goes to the agent of a session.
#[derive(Debug)]
pub enum DispatchStep {
    /// Hand the text over.
    SendToAgent,
    /// Tell the user what went wrong.
    Report(UnifiedOutgoingMessage),
    /// Tell the session its conversation.
    Bind { conversation_id: String, streaming: bool },
    /// Show the agent's events to the user.
    Relay,
    /// Stop.
    Done,
}

/// What a dispatch step holds.
pub enum DispatchView {
    SendToAgent,
    Report(types::OutgoingView),
    Bind { conversation_id: Seq<char>, streaming: bool },
    Relay,
    Done,
}

impl View for DispatchStep {
    type V = DispatchView;

    open spec fn view(&self) -> DispatchView {
        match self {
            DispatchStep::SendToAgent => DispatchView::SendToAgent,
            DispatchStep::Report(m) => DispatchView::Report(m@),
            DispatchStep::Bind { conversation_id, streaming } => DispatchView::Bind {
                conversation_id: conversation_id@,
                streaming: *streaming,
            },
            DispatchStep::Relay => DispatchView::Relay,
            DispatchStep::Done => DispatchView::Done,
        }
    }
}

/// Whether the agent's events are shown or the matter ends.
pub open spec fn relay_or_done(streaming: bool) -> DispatchView {
    if streaming {
        DispatchView::Relay
    } else {
        DispatchView::Done
    }
}

/// The next step about a text of a session, where `known_conversation` says whether the
/// session knew its conversation before.
pub open spec fn dispatch_step(known_conversation: bool, event: DispatchEvent) -> DispatchView {
    match event {
        DispatchEvent::Session { found } => if found {
            DispatchView::SendToAgent
        } else {
            DispatchView::Done
        },
        DispatchEvent::Failed(e) => DispatchView::Report(
            types::text_message_view("\u{274c} Failed to process: "@ + crate::error::error_text(e@)),
        ),
        DispatchEvent::Sent { conversation_id, streaming } => if known_conversation {
            relay_or_done(streaming)
        } else {
            DispatchView::Bind { conversation_id: conversation_id@, streaming }
        },
        DispatchEvent::Bound { streaming } => relay_or_done(streaming),
    }
}

impl ChannelOrchestrator {
    /// The next step about a text of a session. `known_conversation` says whether
    /// the session knew its conversation before.
    pub fn handle_dispatched(known_conversation: bool, event: &DispatchEvent) -> (r: DispatchStep)
        ensures
            r@ == dispatch_step(known_conversation, *event),
    {
        match event {
            DispatchEvent::Session { found } => if *found {
                DispatchStep::SendToAgent
            } else {
                DispatchStep::Done
            },
            DispatchEvent::Failed(e) => DispatchStep::Report(failure_message(e)),
            DispatchEvent::Sent { conversation_id, streaming } => if known_conversation {
                if *streaming {
                    DispatchStep::Relay
                } else {
                    DispatchStep::Done
                }
            } else {
                DispatchStep::Bind { conversation_id: conversation_id.clone(), streaming: *streaming }
            },
            DispatchEvent::Bound { streaming } => if *streaming {
                DispatchStep::Relay
            } else {
                DispatchStep::Done
            },
        }
    }
}

// ---------------------------------------------------------------------------
// Laws
// ---------------------------------------------------------------------------

/// A text of a session that is there goes to its agent. A session learns its conversation
/// once, where it did not know it; after that, and not before, the agent's events are
/// shown, if any are coming. A failure is told to the user in its words.
pub proof fn law_text_is_sent_bound_and_shown(known: bool, conversation_id: String, streaming: bool, e: ChannelError)
    ensures
        dispatch_step(known, DispatchEvent::Session { found: true }) is SendToAgent,
        dispatch_step(known, DispatchEvent::Session { found: false }) is Done,
        ({
            let sent = dispatch_step(known, DispatchEvent::Sent { conversation_id, streaming });
            &&& sent is Bind <==> !known
            &&& sent matches DispatchView::Bind { conversation_id: id, streaming: s } ==> id == conversation_id@ && s
                == streaming
            &&& sent is Relay <==> known && streaming
            &&& sent is Done <==> known && !streaming
        }),
        dispatch_step(known, DispatchEvent::Bound { streaming }) is Relay <==> streaming,
        dispatch_step(known, DispatchEvent::Bound { streaming }) is Done <==> !streaming,
        dispatch_step(known, DispatchEvent::Failed(e)) matches DispatchView::Report(m) && m.text == Some(
            "\u{274c} Failed to process: "@ + crate::error::error_text(e@),
        ),
{
}

/// A response goes out with its text and its buttons: as an edit of the message that it
/// names where it asks for one, as a new message where it does not.
pub proof fn law_response_goes_out(r: types::ResponseView)
    ensures
        response_delivery(r) is Nothing <==> r.text is None || (r.behavior == ActionBehavior::Edit
            && r.edit_message_id is None),
        response_delivery(r) is Edit <==> r.text is Some && r.behavior == ActionBehavior::Edit && r.edit_message_id is Some,
        response_delivery(r) matches DeliveryView::Edit { message_id, message } ==> message_id == r.edit_message_id->0
            && message.text == r.text && message.buttons == r.buttons && message.keyboard == r.keyboard
            && message.parse_mode == r.parse_mode,
        response_delivery(r) matches DeliveryView::Send(message) ==> message.text == r.text && message.buttons
            == r.buttons && message.keyboard == r.keyboard && message.parse_mode == r.parse_mode,
{
}

/// The outcome of a message goes where it belongs: a response through a plugin of the
/// owner, a text to the session that was found for it, with its conversation.
pub proof fn law_outcome_goes_where_it_belongs(owner: Option<Seq<char>>, response: ActionResponse, o: String, id: String, c: Option<String>)
    ensures
        owner is Some ==> route(owner, Ok(MessageResult::Action(response))) == (RoutingView::Deliver {
            owner_user_id: owner->0,
            delivery: response_delivery(response@),
        }),
        owner is None ==> route(owner, Ok(MessageResult::Action(response))) is Nothing,
        route(owner, Ok(MessageResult::Dispatched { owner_user_id: o, session_id: id, conversation_id: c })) == (
        RoutingView::Dispatch { owner_user_id: o@, session_id: id@, conversation_id: types::opt_text(c) }),
        route(owner, Ok(MessageResult::AlreadyProcessing)) is Nothing,
{
}

} // verus!
