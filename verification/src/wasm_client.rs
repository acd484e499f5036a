//! Calling over a WebSocket of a browser.
//!
//! The browser calls back with events. What differs from
//! [`websocket_client`](crate::websocket_client) stands here: what an event
//! leads to, how opening ends, and how a timeout is handed to a timer.

use crate::error::{ErrorModel, IoKind, RepeError};
use crate::message;
use crate::message::{Message, MessageModel};
use crate::websocket_client::PendingRequests;
use crate::websocket_server::websocket_invalid_data_error;
use vstd::prelude::*;

verus! {

/// An error that the browser gives no reason for.
pub open spec fn event_error(message: Seq<char>) -> ErrorModel {
    ErrorModel::Io { kind: IoKind::Other, message }
}

/// An error that the browser gives no reason for.
pub fn websocket_event_error(message: &str) -> (e: RepeError)
    ensures
        e@ == event_error(message@),
{
    RepeError::io(IoKind::Other, message)
}

/// How opening a WebSocket ended.
#[derive(Debug, Clone, Copy, PartialEq, Eq, Structural)]
pub enum OpenSignal {
    Opened,
    Failed,
    /// Neither event can come any more.
    ChannelClosed,
}

/// What opening a WebSocket comes to.
pub fn settle_open(signal: OpenSignal) -> (r: Result<(), RepeError>)
    ensures
        match signal {
            OpenSignal::Opened => r is Ok,
            OpenSignal::Failed => r matches Err(e) && e@ == event_error(
                "websocket connection failed"@,
            ),
            OpenSignal::ChannelClosed => r matches Err(e) && e@ == event_error(
                "websocket open channel closed"@,
            ),
        },
{
    match signal {
        OpenSignal::Opened => Ok(()),
        OpenSignal::Failed => Err(websocket_event_error("websocket connection failed")),
        OpenSignal::ChannelClosed => Err(websocket_event_error("websocket open channel closed")),
    }
}

/// The message in an event: the data must be an array buffer that holds exactly
/// one.
pub open spec fn event_message(data: Option<Seq<u8>>) -> Result<MessageModel, ErrorModel> {
    match data {
        Some(payload) => message::parse_exact(payload),
        None => Err(
            ErrorModel::Io {
                kind: IoKind::InvalidData,
                message: "websocket transport requires ArrayBuffer"@,
            },
        ),
    }
}

/// The bytes in an event, if it holds an array buffer.
pub open spec fn event_bytes(data: Option<Vec<u8>>) -> Option<Seq<u8>> {
    match data {
        Some(payload) => Some(payload@),
        None => None,
    }
}

/// The message in an event. `None` stands for data that is not an array buffer.
pub fn decode_message_event(data: &Option<Vec<u8>>) -> (r: Result<Message, RepeError>)
    ensures
        message::outcome(r) == event_message(event_bytes(*data)),
{
    match data {
        Some(payload) => Message::from_slice_exact(payload.as_slice()),
        None => Err(websocket_invalid_data_error("websocket transport requires ArrayBuffer")),
    }
}

/// What an event leads to.
pub enum EventAction<S> {
    /// Hand the response over.
    Matched { sender: S, response: Message },
    /// Nobody waits for the response. Say so.
    Unrecognized { got_id: u64 },
    /// Hand each waiting request its error.
    FailAll(Vec<(u64, S, RepeError)>),
}

/// What an [`EventAction`] says; of the requests that are failed, the error.
pub enum EventModel<S> {
    Matched { sender: S, response: MessageModel },
    Unrecognized { got_id: u64 },
    FailAll(ErrorModel),
}

/// What a message event leads to.
pub open spec fn event_action<S>(pending: Map<u64, S>, data: Option<Seq<u8>>) -> EventModel<S> {
    match event_message(data) {
        Err(e) => EventModel::FailAll(e),
        Ok(m) => if pending.contains_key(m.header.id) {
            EventModel::Matched { sender: pending[m.header.id], response: m }
        } else {
            EventModel::Unrecognized { got_id: m.header.id }
        },
    }
}

/// The requests that wait afterwards.
pub open spec fn waiting_after_event<S>(pending: Map<u64, S>, data: Option<Seq<u8>>) -> Map<u64, S> {
    match event_action(pending, data) {
        EventModel::Matched { response, .. } => pending.remove(response.header.id),
        EventModel::Unrecognized { .. } => pending,
        EventModel::FailAll(_) => Map::empty(),
    }
}

/// Decides what a message event leads to. Data that is not one message fails
/// every request that waits; the socket stays open.
pub fn handle_message<S>(pending: &mut PendingRequests<S>, data: &Option<Vec<u8>>) -> (action:
    EventAction<S>)
    ensures
        match event_message(event_bytes(*data)) {
            Err(e) => {
                &&& final(pending)@ == Map::<u64, S>::empty()
                &&& action matches EventAction::FailAll(r)
                    && crate::websocket_client::failed_waiters(old(pending)@, e, r@)
            },
            Ok(m) => {
                &&& final(pending)@ == old(pending)@.remove(m.header.id)
                &&& if old(pending)@.contains_key(m.header.id) {
                    action matches EventAction::Matched { sender, response } && sender == old(
                        pending,
                    )@[m.header.id] && response@ == m
                } else {
                    action == (EventAction::<S>::Unrecognized { got_id: m.header.id })
                }
            },
        },
        match event_action(old(pending)@, event_bytes(*data)) {
            EventModel::Matched { sender, response } => action matches EventAction::Matched {
                sender: s,
                response: m,
            } && s == sender && m@ == response,
            EventModel::Unrecognized { got_id } => action == (EventAction::<S>::Unrecognized {
                got_id,
            }),
            EventModel::FailAll(e) => action matches EventAction::FailAll(r)
                && crate::websocket_client::failed_waiters(old(pending)@, e, r@),
        },
        final(pending)@ == waiting_after_event(old(pending)@, event_bytes(*data)),
{
    let response = match decode_message_event(data) {
        Ok(m) => m,
        Err(e) => {
            return EventAction::FailAll(pending.fail_all_pending(&e));
        },
    };
    let id: u64 = response.header.id;
    let matched = pending.take(id);
    assert(matched is None ==> pending@ =~= old(pending)@);
    match matched {
        Some(sender) => EventAction::Matched { sender, response },
        None => EventAction::Unrecognized { got_id: id },
    }
}

/// The longest delay that a timer takes.
pub const MAX_TIMER_MS: i32 = 0x7fff_ffff;

/// A timeout as a timer takes it: longer ones become the longest.
pub open spec fn clamped(millis: nat) -> int {
    if millis <= MAX_TIMER_MS {
        millis as int
    } else {
        MAX_TIMER_MS as int
    }
}

/// A timeout as a timer takes it.
pub fn timer_delay(millis: u128) -> (d: i32)
    ensures
        d == clamped(millis as nat),
{
    if millis <= MAX_TIMER_MS as u128 {
        millis as i32
    } else {
        MAX_TIMER_MS
    }
}

/// A timer is never set for longer than was asked, and to the very millisecond
/// where it can.
pub proof fn a_timer_is_never_late(millis: nat)
    ensures
        0 <= clamped(millis) <= millis,
        clamped(millis) == millis || clamped(millis) == MAX_TIMER_MS,
{
}

/// A browser's event is read like a frame: bytes that hold one message are that
/// message, whatever it reports, and nothing else is one.
pub proof fn an_event_is_read_like_a_frame(payload: Seq<u8>)
    ensures
        message::parse_exact(payload) matches Ok(m) ==> event_message(Some(payload)) == Ok::<
            MessageModel,
            ErrorModel,
        >(m),
        message::parse_exact(payload) matches Err(e) ==> event_message(Some(payload)) == Err::<
            MessageModel,
            ErrorModel,
        >(e),
        crate::websocket_client::frame_message(
            crate::websocket_server::FrameModel::Binary(payload),
        ) == match event_message(Some(payload)) {
            Ok(m) => Ok::<Option<MessageModel>, ErrorModel>(Some(m)),
            Err(e) => Err(e),
        },
        event_message(None) matches Err(ErrorModel::Io { kind, .. }) && kind == IoKind::InvalidData,
{
}

/// A response in the browser reaches the request with its id, be it a success or an
/// error, as it does elsewhere; data that is no message fails every request.
pub proof fn a_browser_delivers_responses_alike<S>(
    pending: Map<u64, S>,
    subscribed: bool,
    payload: Seq<u8>,
)
    ensures
        message::parse_exact(payload) matches Ok(m) ==> {
            &&& pending.contains_key(m.header.id) ==> event_action(pending, Some(payload)) == (
            EventModel::Matched { sender: pending[m.header.id], response: m })
            &&& !pending.contains_key(m.header.id) ==> event_action(pending, Some(payload)) == (
            EventModel::<S>::Unrecognized { got_id: m.header.id })
            &&& m.header.notify == 0 ==> waiting_after_event(pending, Some(payload))
                == crate::websocket_client::pending_after(
                pending,
                crate::websocket_client::delivery(pending, subscribed, m),
            )
        },
        message::parse_exact(payload) matches Err(e) ==> event_action(pending, Some(payload))
            == EventModel::<S>::FailAll(e) && waiting_after_event(pending, Some(payload))
            == Map::<u64, S>::empty(),
        event_action(pending, None) is FailAll,
{
}

} // verus!
