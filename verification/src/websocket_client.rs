//! Calling over a WebSocket connection.
//!
//! The socket, the tasks and the channels are the embedder's. Here stands the
//! bookkeeping that matches responses to requests ([`PendingRequests`]), what
//! each thing that is read leads to ([`response_step`]), and what a call ends
//! with ([`settle_call`]).

use crate::codec;
use crate::codec::{parse_beve, parse_json};
use crate::constants::{BodyFormat, ErrorCode, QueryFormat, TypedFormat, REPE_VERSION};
use crate::error::{ErrorModel, IoError, IoKind, RepeError};
use crate::message;
use crate::message::{copy_bytes, Header, Message, MessageModel};
use crate::text;
use crate::text::{concat2, concat3, u128_text, u64_text};
use crate::websocket_server;
use crate::websocket_server::{
    websocket_closed_error, websocket_invalid_data_error, websocket_transport_error, FrameModel,
    Inbound, TransportFault,
};
use serde_json::Value;
use std::collections::HashMap;
use vstd::prelude::*;
use vstd::std_specs::hash::*;

verus! {

broadcast use vstd::std_specs::hash::group_hash_axioms;

/// A subscription exists already, and its receiver is still there.
#[derive(Debug, Clone, Copy, PartialEq, Eq, Structural)]
pub struct AlreadySubscribed;

impl AlreadySubscribed {
    /// What the error says to a reader.
    pub fn text(&self) -> (s: String)
        ensures
            s@ == "a notify subscription is already active on this WebSocketClient"@,
    {
        "a notify subscription is already active on this WebSocketClient".to_owned()
    }
}

// ---- errors ----

/// The error that a waiting request is told when the connection fails: errors
/// that are text name the request.
pub open spec fn waiter_error(e: ErrorModel, id: u64) -> ErrorModel {
    match e {
        ErrorModel::Io { kind, message } => ErrorModel::Io {
            kind,
            message: request_text(id, message),
        },
        ErrorModel::Json(message) => ErrorModel::Json(request_text(id, message)),
        ErrorModel::Beve(message) => ErrorModel::Beve(request_text(id, message)),
        other => other,
    }
}

/// A text about a request.
pub open spec fn request_text(id: u64, message: Seq<char>) -> Seq<char> {
    "request "@ + text::decimal(id as nat) + ": "@ + message
}

/// A text about a request.
fn about_request(id: u64, message: &str) -> (s: String)
    ensures
        s@ == request_text(id, message@),
{
    let mut s = concat3("request ", u64_text(id).as_str(), ": ");
    s.append(message);
    s
}

/// The error that a waiting request is told when the connection fails.
pub fn clone_fatal_error_for_waiter(err: &RepeError, request_id: u64) -> (e: RepeError)
    ensures
        e@ == waiter_error(err@, request_id),
{
    match err {
        RepeError::VersionMismatch(version) => RepeError::VersionMismatch(*version),
        RepeError::InvalidSpec(number) => RepeError::InvalidSpec(*number),
        RepeError::InvalidHeaderLength(length) => RepeError::InvalidHeaderLength(*length),
        RepeError::ReservedNonZero => RepeError::ReservedNonZero,
        RepeError::LengthMismatch { expected, got } => RepeError::LengthMismatch {
            expected: *expected,
            got: *got,
        },
        RepeError::BufferTooSmall { need, have } => RepeError::BufferTooSmall {
            need: *need,
            have: *have,
        },
        RepeError::ResponseIdMismatch { expected, got } => RepeError::ResponseIdMismatch {
            expected: *expected,
            got: *got,
        },
        RepeError::Io(io) => RepeError::Io(
            IoError { kind: io.kind, message: about_request(request_id, io.message.as_str()) },
        ),
        RepeError::Json(message) => RepeError::Json(about_request(request_id, message.as_str())),
        RepeError::Beve(message) => RepeError::Beve(about_request(request_id, message.as_str())),
        RepeError::InvalidUtf8 => RepeError::InvalidUtf8,
        RepeError::UnknownEnumValue(value) => RepeError::UnknownEnumValue(*value),
        RepeError::ServerError { code, message } => RepeError::ServerError {
            code: *code,
            message: message.clone(),
        },
        RepeError::MessageTooLarge { size, limit } => RepeError::MessageTooLarge {
            size: *size,
            limit: *limit,
        },
    }
}

/// The error for a request that was not answered in time.
pub open spec fn timed_out(id: u64, millis: nat) -> ErrorModel {
    ErrorModel::Io {
        kind: IoKind::TimedOut,
        message: "request "@ + text::decimal(id as nat) + " timed out after "@ + text::decimal(
            millis,
        ) + "ms"@,
    }
}

/// The error for a request whose response can no longer arrive.
pub open spec fn abandoned(id: u64) -> ErrorModel {
    ErrorModel::Io {
        kind: IoKind::ConnectionAborted,
        message: "response channel closed for request "@ + text::decimal(id as nat),
    }
}

/// The error for a request id that is in use.
pub open spec fn duplicate(id: u64) -> ErrorModel {
    ErrorModel::Io {
        kind: IoKind::AlreadyExists,
        message: "request id "@ + text::decimal(id as nat) + " is already pending"@,
    }
}

/// The error for a request that was not answered in time.
pub fn request_timeout_error(request_id: u64, millis: u128) -> (e: RepeError)
    ensures
        e@ == timed_out(request_id, millis as nat),
{
    let mut s = concat3("request ", u64_text(request_id).as_str(), " timed out after ");
    s.append(u128_text(millis).as_str());
    s.append("ms");
    RepeError::io(IoKind::TimedOut, s.as_str())
}

/// The error for a request whose response can no longer arrive.
pub fn response_channel_closed_error(request_id: u64) -> (e: RepeError)
    ensures
        e@ == abandoned(request_id),
{
    RepeError::io(
        IoKind::ConnectionAborted,
        concat2("response channel closed for request ", u64_text(request_id).as_str()).as_str(),
    )
}

/// The error for a request id that is in use.
pub fn duplicate_request_id_error(request_id: u64) -> (e: RepeError)
    ensures
        e@ == duplicate(request_id),
{
    RepeError::io(
        IoKind::AlreadyExists,
        concat3("request id ", u64_text(request_id).as_str(), " is already pending").as_str(),
    )
}

/// The error of a connection that could not be opened.
pub fn websocket_connect_error(fault: TransportFault) -> (e: IoError)
    ensures
        match fault {
            TransportFault::Io(io) => e == io,
            TransportFault::Closed(text) => e.kind == IoKind::Other && e.message == text,
            TransportFault::Other(text) => e.kind == IoKind::Other && e.message == text,
        },
{
    match fault {
        TransportFault::Io(io) => io,
        TransportFault::Closed(text) => IoError { kind: IoKind::Other, message: text },
        TransportFault::Other(text) => IoError { kind: IoKind::Other, message: text },
    }
}

// ---- request ids ----

/// The ids that requests are sent under.
pub struct RequestIds {
    next: u64,
}

impl RequestIds {
    /// The id that is taken next.
    pub closed spec fn upcoming(self) -> u64 {
        self.next
    }

    /// The first id is 1.
    pub fn new() -> (ids: RequestIds)
        ensures
            ids.upcoming() == 1,
    {
        RequestIds { next: 1 }
    }

    /// Takes an id. The counter wraps.
    pub fn next_request_id(&mut self) -> (id: u64)
        ensures
            id == old(self).upcoming(),
            final(self).upcoming() == websocket_server::next_id(id),
    {
        let id: u64 = self.next;
        self.next = id.wrapping_add(1);
        id
    }
}

// ---- pending requests ----

/// The requests that wait for a response, and where each response is to be
/// handed.
pub struct PendingRequests<S> {
    map: HashMap<u64, S>,
}

impl<S> View for PendingRequests<S> {
    type V = Map<u64, S>;

    closed spec fn view(&self) -> Map<u64, S> {
        self.map@
    }
}

impl<S> PendingRequests<S> {
    /// No request waits.
    pub fn new() -> (p: PendingRequests<S>)
        ensures
            p@ == Map::<u64, S>::empty(),
    {
        PendingRequests { map: HashMap::new() }
    }

    /// How many requests wait.
    pub fn len(&self) -> (n: usize)
        ensures
            n == self@.len(),
    {
        self.map.len()
    }

    /// Whether request `id` waits.
    pub fn contains(&self, id: u64) -> (r: bool)
        ensures
            r == self@.contains_key(id),
    {
        self.map.contains_key(&id)
    }

    /// Enters a request, unless its id is in use.
    pub fn register(&mut self, request_id: u64, sender: S) -> (r: Result<
        PendingRequestGuard,
        RepeError,
    >)
        ensures
            match r {
                Ok(guard) => !old(self)@.contains_key(request_id) && final(self)@ == old(
                    self,
                )@.insert(request_id, sender) && guard == (PendingRequestGuard {
                    request_id,
                    disarmed: false,
                }),
                Err(e) => old(self)@.contains_key(request_id) && final(self)@ == old(self)@
                    && e@ == duplicate(request_id),
            },
    {
        if self.map.contains_key(&request_id) {
            return Err(duplicate_request_id_error(request_id));
        }
        self.map.insert(request_id, sender);
        Ok(PendingRequestGuard { request_id, disarmed: false })
    }

    /// Takes the entry of a request, if it waits.
    pub fn take(&mut self, request_id: u64) -> (r: Option<S>)
        ensures
            match r {
                Some(sender) => old(self)@.contains_key(request_id) && sender == old(
                    self,
                )@[request_id],
                None => !old(self)@.contains_key(request_id),
            },
            final(self)@ == old(self)@.remove(request_id),
    {
        let r = self.map.remove(&request_id);
        assert(self@ =~= old(self)@.remove(request_id));
        r
    }

    /// The ids of the requests that wait, each once.
    fn ids(&self) -> (r: Vec<u64>)
        ensures
            r@.no_duplicates(),
            r@.len() == self@.len(),
            forall|id: u64| self@.contains_key(id) == r@.contains(id),
    {
        let mut r: Vec<u64> = Vec::new();
        for id in it: self.map.keys()
            invariant
                r@.len() == it.index(),
                forall|j: int| 0 <= j < r@.len() ==> r@[j] == *it.seq()[j],
        {
            r.push(*id);
        }
        proof {
            let all = vstd::std_specs::iter::IteratorSpec::remaining(&spec_keys_iter(&self.map));
            assert(all.unref().to_set() == self@.dom());
            assert(r@ =~= all.unref());
            assert forall|id: u64| self@.contains_key(id) == r@.contains(id) by {
                assert(all.unref().to_set().contains(id) == r@.contains(id));
            }
            assert forall|i: int, j: int| 0 <= i < r@.len() && 0 <= j < r@.len() && i != j implies r@[i]
                != r@[j] by {
                assert(all[i] != all[j]);
            }
        }
        r
    }

    /// Fails every request that waits: each is handed its error, and none waits
    /// any longer.
    pub fn fail_all_pending(&mut self, err: &RepeError) -> (r: Vec<(u64, S, RepeError)>)
        ensures
            final(self)@ == Map::<u64, S>::empty(),
            failed_waiters(old(self)@, err@, r@),
    {
        let ids = self.ids();
        let ghost all = self@;
        let n: usize = ids.len();
        proof {
            assert forall|j: int| 0 <= j < n implies self@.contains_key(#[trigger] ids@[j]) by {
                assert(ids@.contains(ids@[j]));
            }
        }
        let mut r: Vec<(u64, S, RepeError)> = Vec::new();
        let mut i: usize = 0;
        while i < n
            invariant
                i <= n,
                n == ids@.len(),
                ids@.no_duplicates(),
                forall|id: u64| all.contains_key(id) == ids@.contains(id),
                r@.len() == i,
                forall|j: int|
                    0 <= j < i ==> (#[trigger] r@[j]).0 == ids@[j] && r@[j].1 == all[ids@[j]]
                        && r@[j].2@ == waiter_error(err@, ids@[j]),
                forall|id: u64| #[trigger]
                    self@.contains_key(id) ==> all.contains_key(id) && self@[id] == all[id],
                forall|j: int| i <= j < n ==> self@.contains_key(#[trigger] ids@[j]),
                forall|j: int| 0 <= j < i ==> !self@.contains_key(#[trigger] ids@[j]),
            decreases n - i,
        {
            let id: u64 = ids[i];
            assert(self@.contains_key(ids@[i as int]));
            match self.take(id) {
                Some(sender) => {
                    r.push((id, sender, clone_fatal_error_for_waiter(err, id)));
                },
                None => {},
            }
            i = i + 1;
        }
        proof {
            assert forall|id: u64| !(#[trigger] self@.contains_key(id)) by {
                if self@.contains_key(id) {
                    assert(ids@.contains(id));
                    let j = choose|j: int| 0 <= j < ids@.len() && ids@[j] == id;
                    assert(!self@.contains_key(ids@[j]));
                }
            }
            assert(self@ =~= Map::<u64, S>::empty());
            assert forall|j: int| 0 <= j < r@.len() implies all.contains_key(
                (#[trigger] r@[j]).0,
            ) by {
                assert(ids@.contains(ids@[j]));
            }
        }
        r
    }
}

/// Whether `r` tells every request of `pending`, each once, that the connection
/// failed with `e`.
pub open spec fn failed_waiters<S>(
    pending: Map<u64, S>,
    e: ErrorModel,
    r: Seq<(u64, S, RepeError)>,
) -> bool {
    &&& r.len() == pending.len()
    &&& forall|j: int|
        0 <= j < r.len() ==> pending.contains_key((#[trigger] r[j]).0) && r[j].1 == pending[r[j].0]
            && r[j].2@ == waiter_error(e, r[j].0)
    &&& forall|i: int, j: int|
        0 <= i < r.len() && 0 <= j < r.len() && i != j ==> (#[trigger] r[i]).0 != (#[trigger] r[j]).0
}

impl<S> Default for PendingRequests<S> {
    fn default() -> (p: PendingRequests<S>)
        ensures
            p@ == Map::<u64, S>::empty(),
    {
        PendingRequests::new()
    }
}

/// A request that was entered. When the call ends, it is taken out again unless
/// the guard was disarmed.
pub struct PendingRequestGuard {
    pub request_id: u64,
    pub disarmed: bool,
}

impl PendingRequestGuard {
    /// Leaves the request to whoever took it out.
    pub fn disarm(&mut self)
        ensures
            *final(self) == (PendingRequestGuard { disarmed: true, ..*old(self) }),
    {
        self.disarmed = true;
    }

    /// Ends the call.
    pub fn release<S>(self, pending: &mut PendingRequests<S>)
        ensures
            final(pending)@ == if self.disarmed {
                old(pending)@
            } else {
                old(pending)@.remove(self.request_id)
            },
    {
        if self.disarmed {
            return;
        }
        let _ = pending.take(self.request_id);
    }
}

// ---- the notify subscription ----

/// Where messages that the server pushes are handed, if anyone wants them.
pub struct NotifySlot<N> {
    pub sender: Option<N>,
}

/// Whether there may be a new subscription: there is none, or nobody listens to it.
pub open spec fn may_subscribe<N>(present: Option<N>, closed: bool) -> bool {
    present is None || closed
}

/// The subscription after somebody has asked for one.
pub open spec fn subscribed_with<N>(present: Option<N>, closed: bool, sender: N) -> Option<N> {
    if may_subscribe(present, closed) {
        Some(sender)
    } else {
        present
    }
}

impl<N> NotifySlot<N> {
    /// Nobody wants them.
    pub fn new() -> (s: NotifySlot<N>)
        ensures
            s.sender is None,
    {
        NotifySlot { sender: None }
    }

    /// Subscribes, unless a subscription is live. `closed` says whether the
    /// receiver of the present one, if there is one, is gone.
    pub fn subscribe_notifies(&mut self, closed: bool, sender: N) -> (r: Result<
        (),
        AlreadySubscribed,
    >)
        ensures
            match r {
                Ok(_) => (old(self).sender is None || closed) && final(self).sender == Some(sender),
                Err(_) => old(self).sender is Some && !closed && *final(self) == *old(self),
            },
            r is Ok == may_subscribe(old(self).sender, closed),
            final(self).sender == subscribed_with(old(self).sender, closed, sender),
    {
        if self.sender.is_some() && !closed {
            return Err(AlreadySubscribed);
        }
        self.sender = Some(sender);
        Ok(())
    }

    /// Ends the subscription.
    pub fn unsubscribe_notifies(&mut self)
        ensures
            final(self).sender is None,
    {
        self.sender = None;
    }

    /// Forgets a subscription whose receiver turned out to be gone.
    /// `same_channel` says whether the slot still holds the sender that failed:
    /// a newer subscription is left alone.
    pub fn forget_stale(&mut self, same_channel: bool)
        ensures
            final(self).sender == if same_channel {
                None
            } else {
                old(self).sender
            },
    {
        if same_channel {
            self.sender = None;
        }
    }
}

// ---- the response loop ----

/// What the transport delivers.
pub enum ReadEvent {
    Frame(Inbound),
    Failed(TransportFault),
    Ended,
}

/// What is to be done about it.
pub enum LoopAction<S> {
    /// Read on.
    Continue,
    /// Hand the response over and read on.
    Matched { sender: S, response: Message },
    /// Hand the message to the subscriber and read on.
    Notify(Message),
    /// Nobody wants the notify. Read on.
    DroppedNotify,
    /// Nobody waits for the response. Say so and read on.
    Unrecognized { got_id: u64 },
    /// Close the connection, fail every request that waits, and stop.
    Fail(RepeError),
}

/// What a [`LoopAction`] says.
pub enum LoopModel<S> {
    Continue,
    Matched { sender: S, response: MessageModel },
    Notify(MessageModel),
    DroppedNotify,
    Unrecognized { got_id: u64 },
    Fail(ErrorModel),
}

impl<S> View for LoopAction<S> {
    type V = LoopModel<S>;

    open spec fn view(&self) -> LoopModel<S> {
        match *self {
            LoopAction::Continue => LoopModel::Continue,
            LoopAction::Matched { sender, response } => LoopModel::Matched {
                sender,
                response: response@,
            },
            LoopAction::Notify(m) => LoopModel::Notify(m@),
            LoopAction::DroppedNotify => LoopModel::DroppedNotify,
            LoopAction::Unrecognized { got_id } => LoopModel::Unrecognized { got_id },
            LoopAction::Fail(e) => LoopModel::Fail(e@),
        }
    }
}

/// The message in a frame, or nothing, or the error that ends the connection.
pub open spec fn frame_message(frame: FrameModel) -> Result<Option<MessageModel>, ErrorModel> {
    match frame {
        FrameModel::Binary(payload) => match message::parse_exact(payload) {
            Ok(m) => Ok(Some(m)),
            Err(e) => Err(e),
        },
        FrameModel::Text => Err(websocket_server::not_binary_error()),
        FrameModel::Close => Err(websocket_server::closed_error()),
        _ => Ok(None),
    }
}

/// The message in a frame.
pub fn decode_websocket_frame(frame: &Inbound) -> (r: Result<Option<Message>, RepeError>)
    ensures
        match r {
            Ok(Some(m)) => frame_message(frame@) == Ok::<_, ErrorModel>(Some(m@)),
            Ok(None) => frame_message(frame@) == Ok::<_, ErrorModel>(None::<MessageModel>),
            Err(e) => frame_message(frame@) == Err::<Option<MessageModel>, _>(e@),
        },
{
    match frame {
        Inbound::Binary(payload) => match Message::from_slice_exact(payload.as_slice()) {
            Ok(m) => Ok(Some(m)),
            Err(e) => Err(e),
        },
        Inbound::Ping => Ok(None),
        Inbound::Pong => Ok(None),
        Inbound::Raw => Ok(None),
        Inbound::Close => Err(websocket_closed_error()),
        Inbound::Text => Err(
            websocket_invalid_data_error("websocket transport requires binary messages"),
        ),
    }
}

/// What a message leads to: a notify goes to the subscriber, a response to the
/// request with its id.
pub open spec fn delivery<S>(
    pending: Map<u64, S>,
    subscribed: bool,
    m: MessageModel,
) -> LoopModel<S> {
    if m.header.notify != 0 {
        if subscribed {
            LoopModel::Notify(m)
        } else {
            LoopModel::DroppedNotify
        }
    } else if pending.contains_key(m.header.id) {
        LoopModel::Matched { sender: pending[m.header.id], response: m }
    } else {
        LoopModel::Unrecognized { got_id: m.header.id }
    }
}

/// What the transport delivered leads to.
pub open spec fn loop_action<S>(
    pending: Map<u64, S>,
    subscribed: bool,
    event: ReadEvent,
) -> LoopModel<S> {
    match event {
        ReadEvent::Failed(fault) => LoopModel::Fail(websocket_server::transport_error(fault)),
        ReadEvent::Ended => LoopModel::Fail(websocket_server::closed_error()),
        ReadEvent::Frame(frame) => match frame_message(frame@) {
            Err(e) => LoopModel::Fail(e),
            Ok(None) => LoopModel::Continue,
            Ok(Some(m)) => delivery(pending, subscribed, m),
        },
    }
}

/// The requests that wait after an action: a matched one waits no longer.
pub open spec fn pending_after<S>(pending: Map<u64, S>, action: LoopModel<S>) -> Map<u64, S> {
    match action {
        LoopModel::Matched { response, .. } => pending.remove(response.header.id),
        _ => pending,
    }
}

/// Decides what the transport delivered leads to, and takes a matched request
/// out of those that wait.
pub fn response_step<S, N>(
    pending: &mut PendingRequests<S>,
    subscription: &NotifySlot<N>,
    event: ReadEvent,
) -> (action: LoopAction<S>)
    ensures
        action@ == loop_action(old(pending)@, subscription.sender is Some, event),
        final(pending)@ == pending_after(old(pending)@, action@),
{
    let frame = match event {
        ReadEvent::Frame(frame) => frame,
        ReadEvent::Failed(fault) => {
            return LoopAction::Fail(websocket_transport_error(fault));
        },
        ReadEvent::Ended => {
            return LoopAction::Fail(websocket_closed_error());
        },
    };
    let response = match decode_websocket_frame(&frame) {
        Ok(Some(m)) => m,
        Ok(None) => {
            return LoopAction::Continue;
        },
        Err(e) => {
            return LoopAction::Fail(e);
        },
    };
    if response.header.notify != 0 {
        return if subscription.sender.is_some() {
            LoopAction::Notify(response)
        } else {
            LoopAction::DroppedNotify
        };
    }
    let response_id: u64 = response.header.id;
    let matched = pending.take(response_id);
    assert(matched is None ==> pending@ =~= old(pending)@);
    match matched {
        Some(sender) => LoopAction::Matched { sender, response },
        None => LoopAction::Unrecognized { got_id: response_id },
    }
}

/// What is said of a response that nobody waits for.
pub fn unrecognized_text(got_id: u64) -> (s: String)
    ensures
        s@ == "[repe] dropping websocket response for unrecognized request id "@ + text::decimal(
            got_id as nat,
        ),
{
    concat2(
        "[repe] dropping websocket response for unrecognized request id ",
        u64_text(got_id).as_str(),
    )
}

// ---- calls ----

/// The message that a call is sent as.
pub open spec fn call_message(
    id: u64,
    notify: bool,
    path: Seq<char>,
    query_format: u16,
    body: Seq<u8>,
    body_format: u16,
) -> MessageModel {
    MessageModel {
        header: Header {
            id,
            notify: if notify {
                1
            } else {
                0
            },
            query_format,
            body_format,
            ..Header::blank()
        },
        query: vstd::utf8::encode_utf8(path),
        body,
    }.stamped()
}

/// The message that a call with the given body is sent as; without one the
/// body is empty.
pub fn message_with_formats(
    id: u64,
    notify: bool,
    path: &str,
    query_format: u16,
    body: Option<&[u8]>,
    body_format: u16,
) -> (m: Message)
    ensures
        m@ == call_message(
            id,
            notify,
            path@,
            query_format,
            body_bytes(body),
            body_format,
        ),
{
    let builder = Message::builder().id(id).notify(notify).query_str(path).query_format_code(
        query_format,
    );
    match body {
        Some(bytes) => builder.body_bytes(copy_bytes(bytes)).body_format_code(body_format).build(),
        None => builder.body_format_code(body_format).build(),
    }
}

/// The bytes of a body, none where there is none.
pub open spec fn body_bytes(body: Option<&[u8]>) -> Seq<u8> {
    match body {
        Some(b) => b@,
        None => Seq::empty(),
    }
}

/// What beginning a call under id `next` gives: its message, or the error that
/// ends it before anything is sent.
pub open spec fn begun<S>(
    next: u64,
    pending: Map<u64, S>,
    path: Seq<char>,
    query_format: u16,
    body: Result<Seq<u8>, ErrorModel>,
    body_format: u16,
) -> Result<MessageModel, ErrorModel> {
    match body {
        Err(e) => Err(e),
        Ok(bytes) => if pending.contains_key(next) {
            Err(duplicate(next))
        } else {
            Ok(call_message(next, false, path, query_format, bytes, body_format))
        },
    }
}

/// The requests that wait after a call was begun.
pub open spec fn waiting_with<S>(
    pending: Map<u64, S>,
    call: Result<MessageModel, ErrorModel>,
    sender: S,
) -> Map<u64, S> {
    match call {
        Ok(m) => pending.insert(m.header.id, sender),
        Err(_) => pending,
    }
}

/// The body of a call, as it was written.
pub open spec fn written_body(body: Result<Option<&[u8]>, RepeError>) -> Result<
    Seq<u8>,
    ErrorModel,
> {
    match body {
        Ok(b) => Ok(body_bytes(b)),
        Err(e) => Err(e@),
    }
}

/// What beginning a call came to.
pub open spec fn begun_outcome(r: Result<(Message, PendingRequestGuard), RepeError>) -> Result<
    MessageModel,
    ErrorModel,
> {
    match r {
        Ok(begun) => Ok(begun.0@),
        Err(e) => Err(e@),
    }
}

/// Begins a call: takes an id, builds the message and enters the request, to be
/// answered through `sender`. A body that could not be written, or an id that is
/// in use, ends the call before anything is sent.
pub fn begin_call<S>(
    ids: &mut RequestIds,
    pending: &mut PendingRequests<S>,
    sender: S,
    path: &str,
    query_format: u16,
    body: Result<Option<&[u8]>, RepeError>,
    body_format: u16,
) -> (r: Result<(Message, PendingRequestGuard), RepeError>)
    ensures
        final(ids).upcoming() == websocket_server::next_id(old(ids).upcoming()),
        match body {
            Err(e) => r == Err::<(Message, PendingRequestGuard), RepeError>(e) && final(pending)@
                == old(pending)@,
            Ok(b) => if old(pending)@.contains_key(old(ids).upcoming()) {
                r matches Err(e) && e@ == duplicate(old(ids).upcoming()) && final(pending)@ == old(
                    pending,
                )@
            } else {
                r matches Ok(begun) && begun.0@ == call_message(
                    old(ids).upcoming(),
                    false,
                    path@,
                    query_format,
                    body_bytes(b),
                    body_format,
                ) && begun.1 == (PendingRequestGuard {
                    request_id: old(ids).upcoming(),
                    disarmed: false,
                }) && final(pending)@ == old(pending)@.insert(old(ids).upcoming(), sender)
            },
        },
        begun_outcome(r) == begun(
            old(ids).upcoming(),
            old(pending)@,
            path@,
            query_format,
            written_body(body),
            body_format,
        ),
        final(pending)@ == waiting_with(old(pending)@, begun_outcome(r), sender),
        r matches Ok(begun) ==> begun.1.request_id == begun.0.header.id && !begun.1.disarmed,
{
    let id: u64 = ids.next_request_id();
    match body {
        Err(e) => Err(e),
        Ok(b) => {
            let m = message_with_formats(id, false, path, query_format, b, body_format);
            match pending.register(id, sender) {
                Ok(guard) => Ok((m, guard)),
                Err(e) => Err(e),
            }
        },
    }
}

/// What beginning a notify under id `next` gives.
pub open spec fn notify_begun(
    next: u64,
    path: Seq<char>,
    query_format: u16,
    body: Result<Seq<u8>, ErrorModel>,
    body_format: u16,
) -> Result<MessageModel, ErrorModel> {
    match body {
        Err(e) => Err(e),
        Ok(bytes) => Ok(call_message(next, true, path, query_format, bytes, body_format)),
    }
}

/// The message of a notify, under an id of its own. A body that could not be
/// written ends it before anything is sent.
pub fn begin_notify(
    ids: &mut RequestIds,
    path: &str,
    query_format: u16,
    body: Result<Option<&[u8]>, RepeError>,
    body_format: u16,
) -> (r: Result<Message, RepeError>)
    ensures
        final(ids).upcoming() == websocket_server::next_id(old(ids).upcoming()),
        match body {
            Err(e) => r == Err::<Message, RepeError>(e),
            Ok(b) => r matches Ok(m) && m@ == call_message(
                old(ids).upcoming(),
                true,
                path@,
                query_format,
                body_bytes(b),
                body_format,
            ),
        },
        message::outcome(r) == notify_begun(
            old(ids).upcoming(),
            path@,
            query_format,
            written_body(body),
            body_format,
        ),
{
    let id: u64 = ids.next_request_id();
    match body {
        Err(e) => Err(e),
        Ok(b) => Ok(message_with_formats(id, true, path, query_format, b, body_format)),
    }
}

/// The message that a call with a value is sent as.
pub fn message_with_value(id: u64, notify: bool, path: &str, value: &Value, format: BodyFormat) -> (r:
    Result<Message, RepeError>)
    requires
        format == BodyFormat::Json || format == BodyFormat::Beve,
    ensures
        match message::value_body(*value, format) {
            Ok(body) => r matches Ok(m) && m@ == call_message(
                id,
                notify,
                path@,
                QueryFormat::JsonPointer.wire(),
                body,
                format.wire(),
            ),
            Err(e) => r matches Err(err) && err@ == e,
        },
{
    let body = match message::encode_value(value, format) {
        Ok(body) => body,
        Err(e) => {
            return Err(e);
        },
    };
    Ok(
        message_with_formats(
            id,
            notify,
            path,
            QueryFormat::JsonPointer.code(),
            Some(body.as_slice()),
            format.code(),
        ),
    )
}

/// What a response to request `expected` comes to.
pub open spec fn validated(expected: u64, m: MessageModel) -> Result<MessageModel, ErrorModel> {
    if m.header.version != REPE_VERSION {
        Err(ErrorModel::VersionMismatch(m.header.version))
    } else if m.header.id != expected {
        Err(ErrorModel::ResponseIdMismatch { expected, got: m.header.id })
    } else if m.header.ec != ErrorCode::Success.wire() {
        let code = match ErrorCode::of_wire(m.header.ec) {
            Some(code) => code,
            None => ErrorCode::ParseError,
        };
        Err(ErrorModel::ServerError { code, message: error_text(m, code) })
    } else {
        Ok(m)
    }
}

/// What an error response says: its body if that is text, otherwise what the
/// code says.
pub open spec fn error_text(m: MessageModel, code: ErrorCode) -> Seq<char> {
    if vstd::utf8::valid_utf8(m.body) {
        vstd::utf8::decode_utf8(m.body)
    } else {
        code.label()
    }
}

/// Checks a response to request `expected_id`.
pub fn validate_response(expected_id: u64, resp: Message) -> (r: Result<Message, RepeError>)
    ensures
        message::outcome(r) == validated(expected_id, resp@),
        r matches Ok(m) ==> m == resp,
{
    if resp.header.version != REPE_VERSION {
        return Err(RepeError::VersionMismatch(resp.header.version));
    }
    if resp.header.id != expected_id {
        return Err(
            RepeError::ResponseIdMismatch { expected: expected_id, got: resp.header.id },
        );
    }
    if resp.header.ec != ErrorCode::Success.code() {
        let code = match ErrorCode::from_code(resp.header.ec) {
            Some(code) => code,
            None => ErrorCode::ParseError,
        };
        let message = match resp.error_message_utf8() {
            Some(text) => text,
            None => code.message().to_owned(),
        };
        return Err(RepeError::ServerError { code, message });
    }
    Ok(resp)
}

/// How the body of a response is to be read. Text is read as JSON; raw bytes
/// are not read at all.
pub open spec fn typed_format(body_format: u16) -> Result<TypedFormat, ErrorModel> {
    match BodyFormat::of_wire(body_format) {
        Some(BodyFormat::Json) => Ok(TypedFormat::Json),
        Some(BodyFormat::Utf8) => Ok(TypedFormat::Json),
        Some(BodyFormat::Beve) => Ok(TypedFormat::Beve),
        Some(BodyFormat::RawBinary) => Err(
            ErrorModel::Json("response body is neither JSON nor BEVE"@),
        ),
        None => Err(ErrorModel::UnknownEnumValue(body_format as u64)),
    }
}

/// How the body of a response is to be read.
pub fn response_format(resp: &Message) -> (r: Result<TypedFormat, RepeError>)
    ensures
        match typed_format(resp.header.body_format) {
            Ok(format) => r == Ok::<TypedFormat, RepeError>(format),
            Err(e) => r matches Err(err) && err@ == e,
        },
{
    match BodyFormat::from_code(resp.header.body_format) {
        Some(BodyFormat::Json) => Ok(TypedFormat::Json),
        Some(BodyFormat::Utf8) => Ok(TypedFormat::Json),
        Some(BodyFormat::Beve) => Ok(TypedFormat::Beve),
        Some(BodyFormat::RawBinary) => Err(
            RepeError::Json("response body is neither JSON nor BEVE".to_owned()),
        ),
        None => Err(RepeError::UnknownEnumValue(resp.header.body_format as u64)),
    }
}

/// The value in the body of a response.
pub open spec fn response_value(m: MessageModel) -> Result<Value, ErrorModel> {
    match typed_format(m.header.body_format) {
        Ok(TypedFormat::Json) => match codec::json_parsed(m.body) {
            Ok(v) => Ok(v),
            Err(text) => Err(ErrorModel::Json(text)),
        },
        Ok(TypedFormat::Beve) => match codec::beve_parsed(m.body) {
            Ok(v) => Ok(v),
            Err(text) => Err(ErrorModel::Beve(text)),
        },
        Err(e) => Err(e),
    }
}

/// Reads the value in the body of a response.
pub fn decode_typed_response(resp: &Message) -> (r: Result<Value, RepeError>)
    ensures
        match response_value(resp@) {
            Ok(v) => r matches Ok(value) && value == v,
            Err(e) => r matches Err(err) && err@ == e,
        },
{
    match response_format(resp) {
        Ok(TypedFormat::Json) => match parse_json(resp.body.as_slice()) {
            Ok(v) => Ok(v),
            Err(text) => Err(RepeError::Json(text)),
        },
        Ok(TypedFormat::Beve) => match parse_beve(resp.body.as_slice()) {
            Ok(v) => Ok(v),
            Err(text) => Err(RepeError::Beve(text)),
        },
        Err(e) => Err(e),
    }
}

/// What came of waiting for a response.
pub enum Received {
    /// The response, or the error that the request was failed with.
    Value(Result<Message, RepeError>),
    /// Whoever was to hand over the response is gone.
    ChannelClosed,
    /// The time was up, after so many milliseconds.
    TimedOut(u128),
}

/// What a call ends with.
pub open spec fn call_result(id: u64, received: Received) -> Result<MessageModel, ErrorModel> {
    match received {
        Received::Value(Ok(m)) => validated(id, m@),
        Received::Value(Err(e)) => Err(e@),
        Received::ChannelClosed => Err(abandoned(id)),
        Received::TimedOut(millis) => Err(timed_out(id, millis as nat)),
    }
}

/// The requests that wait after a call has ended.
pub open spec fn waiting_after<S>(pending: Map<u64, S>, id: u64, received: Received) -> Map<u64, S> {
    match received {
        Received::Value(Ok(_)) => pending,
        _ => pending.remove(id),
    }
}

/// Ends a call. Unless a response came, the request is taken out of those that
/// wait.
pub fn settle_call<S>(
    pending: &mut PendingRequests<S>,
    guard: PendingRequestGuard,
    received: Received,
) -> (r: Result<Message, RepeError>)
    requires
        !guard.disarmed,
    ensures
        message::outcome(r) == call_result(guard.request_id, received),
        final(pending)@ == if received matches Received::Value(Ok(_)) {
            old(pending)@
        } else {
            old(pending)@.remove(guard.request_id)
        },
        final(pending)@ == waiting_after(old(pending)@, guard.request_id, received),
{
    let mut guard = guard;
    let id: u64 = guard.request_id;
    let r = match received {
        Received::Value(Ok(response)) => {
            guard.disarm();
            validate_response(id, response)
        },
        Received::Value(Err(e)) => Err(e),
        Received::ChannelClosed => Err(response_channel_closed_error(id)),
        Received::TimedOut(millis) => Err(request_timeout_error(id, millis)),
    };
    guard.release(pending);
    r
}

// ---- batches ----

/// The error for a worker of a batch that did not finish.
pub fn batch_worker_join_error(reason: &str) -> (e: RepeError)
    ensures
        e@ == (ErrorModel::Io {
            kind: IoKind::Other,
            message: "batch worker failed: "@ + reason@,
        }),
{
    RepeError::io(IoKind::Other, concat2("batch worker failed: ", reason).as_str())
}

/// The error for a request of a batch that nothing came of.
pub open spec fn missing_result() -> ErrorModel {
    ErrorModel::Io { kind: IoKind::Other, message: "batch worker missing result"@ }
}

/// The last result that came for request `index` of a batch.
pub open spec fn batch_result<T>(finished: Seq<(usize, T)>, index: int) -> Option<T>
    decreases finished.len(),
{
    if finished.len() == 0 {
        None
    } else if finished.last().0 == index {
        Some(finished.last().1)
    } else {
        batch_result(finished.drop_last(), index)
    }
}

/// Puts the results of a batch in the order of its requests, whatever the order
/// in which they came.
pub fn collect_batch<T>(count: usize, finished: Vec<(usize, Result<T, RepeError>)>) -> (r: Vec<
    Result<T, RepeError>,
>)
    requires
        forall|j: int| 0 <= j < finished@.len() ==> (#[trigger] finished@[j]).0 < count,
    ensures
        r@.len() == count,
        forall|i: int|
            0 <= i < count ==> match batch_result(finished@, i) {
                Some(result) => #[trigger] r@[i] == result,
                None => r@[i] matches Err(e) && e@ == missing_result(),
            },
{
    let ghost all = finished@;
    let mut slots: Vec<Option<Result<T, RepeError>>> = Vec::new();
    let mut filled: usize = 0;
    while filled < count
        invariant
            filled <= count,
            slots@.len() == filled,
            forall|i: int| 0 <= i < filled ==> #[trigger] slots@[i] is None,
        decreases count - filled,
    {
        slots.push(None);
        filled = filled + 1;
    }
    let mut rest = finished;
    while rest.len() > 0
        invariant
            slots@.len() == count,
            forall|j: int| 0 <= j < rest@.len() ==> (#[trigger] rest@[j]).0 < count,
            forall|i: int|
                0 <= i < count ==> match #[trigger] slots@[i] {
                    Some(result) => batch_result(all, i) == Some(result),
                    None => batch_result(all, i) == batch_result(rest@, i),
                },
        decreases rest@.len(),
    {
        let ghost before = rest@;
        match rest.pop() {
            Some((index, result)) => {
                proof {
                    assert(before.last() == (index, result));
                    assert(rest@ =~= before.drop_last());
                }
                if slots[index].is_none() {
                    slots.set(index, Some(result));
                }
            },
            None => {},
        }
    }
    let mut r: Vec<Result<T, RepeError>> = Vec::new();
    let mut i: usize = 0;
    while i < count
        invariant
            i <= count,
            slots@.len() == count,
            r@.len() == i,
            forall|k: int|
                i <= k < count ==> #[trigger] slots@[k] == batch_result(all, k),
            forall|k: int|
                0 <= k < i ==> match batch_result(all, k) {
                    Some(result) => #[trigger] r@[k] == result,
                    None => r@[k] matches Err(e) && e@ == missing_result(),
                },
        decreases count - i,
    {
        let mut slot: Option<Result<T, RepeError>> = None;
        assert(slots@[i as int] == batch_result(all, i as int));
        std::mem::swap(&mut slots[i], &mut slot);
        match slot {
            Some(result) => r.push(result),
            None => r.push(Err(RepeError::io(IoKind::Other, "batch worker missing result"))),
        }
        i = i + 1;
    }
    r
}

// ---- laws ----

/// A response is handed over once: another one with the same id finds nobody
/// waiting.
pub proof fn a_response_is_delivered_once<S>(
    pending: Map<u64, S>,
    subscribed: bool,
    first: MessageModel,
    second: MessageModel,
)
    requires
        first.header.notify == 0,
        second.header.notify == 0,
        first.header.id == second.header.id,
    ensures
        delivery(pending_after(pending, delivery(pending, subscribed, first)), subscribed, second)
            == (LoopModel::<S>::Unrecognized { got_id: second.header.id }),
{
}

/// A response reaches the request with its id and disturbs no other.
pub proof fn a_response_disturbs_no_other_request<S>(
    pending: Map<u64, S>,
    subscribed: bool,
    m: MessageModel,
    other: u64,
)
    requires
        pending.contains_key(other),
        other != m.header.id,
    ensures
        pending_after(pending, delivery(pending, subscribed, m)).contains_key(other),
        pending_after(pending, delivery(pending, subscribed, m))[other] == pending[other],
        m.header.notify == 0 && pending.contains_key(m.header.id) ==> delivery(
            pending,
            subscribed,
            m,
        ) == (LoopModel::Matched { sender: pending[m.header.id], response: m }),
{
}

/// Responses may come in any order: each finds its own request, and in the end
/// the same requests wait.
pub proof fn responses_may_come_in_any_order<S>(
    pending: Map<u64, S>,
    subscribed: bool,
    first: MessageModel,
    second: MessageModel,
)
    requires
        first.header.notify == 0,
        second.header.notify == 0,
        first.header.id != second.header.id,
        pending.contains_key(first.header.id),
        pending.contains_key(second.header.id),
    ensures
        delivery(pending_after(pending, delivery(pending, subscribed, first)), subscribed, second)
            == delivery(pending, subscribed, second),
        delivery(pending_after(pending, delivery(pending, subscribed, second)), subscribed, first)
            == delivery(pending, subscribed, first),
        pending_after(
            pending_after(pending, delivery(pending, subscribed, first)),
            delivery(pending, subscribed, second),
        ) == pending_after(
            pending_after(pending, delivery(pending, subscribed, second)),
            delivery(pending, subscribed, first),
        ),
{
    assert(pending.remove(first.header.id).remove(second.header.id) =~= pending.remove(
        second.header.id,
    ).remove(first.header.id));
}

/// A call that was begun and gets its response returns it: the response finds
/// the one who waits, and ends the call well.
pub proof fn an_answered_call_returns_its_response<S>(
    pending: Map<u64, S>,
    subscribed: bool,
    id: u64,
    sender: S,
    response: Message,
)
    requires
        response@.header.id == id,
        response@.header.notify == 0,
        response@.header.version == REPE_VERSION,
        response@.header.ec == 0,
    ensures
        delivery(pending.insert(id, sender), subscribed, response@) == (LoopModel::Matched {
            sender,
            response: response@,
        }),
        call_result(id, Received::Value(Ok(response))) == Ok::<MessageModel, ErrorModel>(
            response@,
        ),
{
}

/// A notify never answers a request, whatever id it carries.
pub proof fn a_notify_answers_no_request<S>(
    pending: Map<u64, S>,
    subscribed: bool,
    m: MessageModel,
)
    requires
        m.header.notify != 0,
    ensures
        pending_after(pending, delivery(pending, subscribed, m)) == pending,
        delivery(pending, subscribed, m) is Notify == subscribed,
{
}

/// A response that comes after its call has ended finds nobody waiting.
pub proof fn a_late_response_is_dropped<S>(pending: Map<u64, S>, subscribed: bool, m: MessageModel)
    requires
        m.header.notify == 0,
    ensures
        delivery(pending.remove(m.header.id), subscribed, m) == (LoopModel::<S>::Unrecognized {
            got_id: m.header.id,
        }),
{
}

/// While every request that waits has an id below the next one, the next
/// request can be entered, and the same holds afterwards.
pub proof fn fresh_ids_are_not_in_use<S>(pending: Map<u64, S>, next: u64, sender: S)
    requires
        forall|id: u64| #[trigger] pending.contains_key(id) ==> id < next,
        next < u64::MAX,
    ensures
        !pending.contains_key(next),
        forall|id: u64| #[trigger]
            pending.insert(next, sender).contains_key(id) ==> id < websocket_server::next_id(next),
{
}

/// A call succeeds only with a response to it that reports no error.
pub proof fn only_its_own_response_ends_a_call_well(id: u64, received: Received)
    requires
        call_result(id, received) is Ok,
    ensures
        call_result(id, received) matches Ok(m) && m.header.id == id && m.header.ec == 0
            && m.header.version == REPE_VERSION && received == Received::Value(
            Ok(received->Value_0->Ok_0),
        ) && received->Value_0->Ok_0@ == m,
{
}

/// Where every request of a batch has one result, each stands in the place of
/// its request.
pub proof fn a_batch_keeps_its_order<T>(finished: Seq<(usize, T)>, j: int)
    requires
        0 <= j < finished.len(),
        forall|i: int, k: int|
            0 <= i < finished.len() && 0 <= k < finished.len() && i != k ==> (#[trigger] finished[i]).0
                != (#[trigger] finished[k]).0,
    ensures
        batch_result(finished, finished[j].0 as int) == Some(finished[j].1),
    decreases finished.len(),
{
    if j < finished.len() - 1 {
        let rest = finished.drop_last();
        assert(rest[j] == finished[j]);
        a_batch_keeps_its_order(rest, j);
    }
}

/// A frame that holds one message is read as that message, whatever it reports:
/// where a request waits under its id, it is handed over, be it a success or an
/// error, and the request waits no longer. A message without a request is
/// dropped, and a notify goes to the subscriber if there is one.
pub proof fn every_message_is_delivered<S>(
    pending: Map<u64, S>,
    subscribed: bool,
    frame: Inbound,
    payload: Seq<u8>,
    m: MessageModel,
)
    requires
        frame@ == FrameModel::Binary(payload),
        message::parse_exact(payload) == Ok::<MessageModel, ErrorModel>(m),
    ensures
        m.header.notify == 0 && pending.contains_key(m.header.id) ==> {
            &&& loop_action(pending, subscribed, ReadEvent::Frame(frame)) == (LoopModel::Matched {
                sender: pending[m.header.id],
                response: m,
            })
            &&& pending_after(
                pending,
                loop_action(pending, subscribed, ReadEvent::Frame(frame)),
            ) == pending.remove(m.header.id)
        },
        m.header.notify == 0 && !pending.contains_key(m.header.id) ==> loop_action(
            pending,
            subscribed,
            ReadEvent::Frame(frame),
        ) == (LoopModel::<S>::Unrecognized { got_id: m.header.id }),
        m.header.notify != 0 && subscribed ==> loop_action(
            pending,
            subscribed,
            ReadEvent::Frame(frame),
        ) == LoopModel::<S>::Notify(m),
        m.header.notify != 0 && !subscribed ==> loop_action(
            pending,
            subscribed,
            ReadEvent::Frame(frame),
        ) == LoopModel::<S>::DroppedNotify,
{
}

/// A response reaches its call as the server wrote it: the frame of any message
/// with the id of a request that waits is handed to the one who waits, with the
/// same code and body.
pub proof fn a_written_response_reaches_its_call<S>(
    pending: Map<u64, S>,
    subscribed: bool,
    frame: Inbound,
    header: Header,
    query: Seq<u8>,
    body: Seq<u8>,
)
    requires
        header.magic == 0x1507,
        header.reserved == 0,
        header.notify == 0,
        48 + query.len() + body.len() <= u64::MAX,
        pending.contains_key(header.id),
        frame@ == FrameModel::Binary(message::frame_bytes(header, query, body)),
    ensures
        loop_action(pending, subscribed, ReadEvent::Frame(frame)) matches LoopModel::Matched {
            sender,
            response,
        } && sender == pending[header.id] && response.header.id == header.id && response.header.ec
            == header.ec && response.header.version == header.version && response.header.body_format
            == header.body_format && response.query == query && response.body == body,
{
    let b = message::frame_bytes(header, query, body);
    assert(b + Seq::<u8>::empty() =~= b);
    message::frame_round_trip(header, query, body, Seq::empty());
}

/// A connection fails on a frame of text, on a close frame, on bytes that are no
/// frame, and when the transport fails or ends; nothing else ends it. Control
/// frames are passed over, and leave every request waiting.
pub proof fn only_a_fault_ends_the_loop<S>(
    pending: Map<u64, S>,
    subscribed: bool,
    event: ReadEvent,
)
    ensures
        loop_action(pending, subscribed, event) is Fail <==> match event {
            ReadEvent::Failed(_) => true,
            ReadEvent::Ended => true,
            ReadEvent::Frame(frame) => match frame@ {
                FrameModel::Text => true,
                FrameModel::Close => true,
                FrameModel::Binary(payload) => message::parse_exact(payload) is Err,
                _ => false,
            },
        },
        event matches ReadEvent::Frame(frame) ==> ((frame@ is Ping || frame@ is Pong || frame@
            is Raw) <==> loop_action(pending, subscribed, event) is Continue),
        loop_action(pending, subscribed, event) !is Matched ==> pending_after(
            pending,
            loop_action(pending, subscribed, event),
        ) == pending,
        event matches ReadEvent::Frame(frame) ==> (frame@ matches FrameModel::Binary(payload) ==> (
        message::parse_exact(payload) matches Err(e) ==> loop_action(pending, subscribed, event)
            == LoopModel::<S>::Fail(e))),
        event matches ReadEvent::Failed(TransportFault::Io(io)) ==> loop_action(
            pending,
            subscribed,
            event,
        ) == LoopModel::<S>::Fail(ErrorModel::Io { kind: io.kind, message: io.message@ }),
        event is Ended ==> (loop_action(pending, subscribed, event) matches LoopModel::Fail(e) && (e
            matches ErrorModel::Io { kind, .. } && kind == IoKind::ConnectionAborted)),
{
}

/// A server's error ends the call with that error: what the server said, under
/// the code that it said it with.
pub proof fn a_server_error_ends_the_call_with_it(req: Header, code: ErrorCode, text: Seq<char>)
    requires
        code != ErrorCode::Success,
    ensures
        validated(req.id, message::error_reply(req, code, text)) == Err::<MessageModel, ErrorModel>(
            ErrorModel::ServerError { code, message: text },
        ),
{
    vstd::utf8::encode_utf8_decode_utf8(text);
    vstd::utf8::encode_utf8_valid_utf8(text);
    crate::constants::error_codes_are_distinct_on_the_wire(code, ErrorCode::Success);
}

/// A response that reports no error ends its call well, as it is.
pub proof fn a_success_ends_the_call_well(req: Header, body: Seq<u8>, format: BodyFormat)
    ensures
        validated(req.id, message::body_reply(req, body, format)) == Ok::<
            MessageModel,
            ErrorModel,
        >(message::body_reply(req, body, format)),
{
}

/// What a response comes to, by its header: another version and another id are
/// refused, an error is the server's, under its code or as a parse error where the
/// code is unknown, and anything else is the response.
pub proof fn a_response_is_judged_by_its_header(expected: u64, m: MessageModel)
    ensures
        validated(expected, m) == Ok::<MessageModel, ErrorModel>(m) <==> m.header.version == 1
            && m.header.id == expected && m.header.ec == 0,
        validated(expected, m) is Ok ==> validated(expected, m) == Ok::<MessageModel, ErrorModel>(m),
        m.header.version != 1 ==> validated(expected, m) == Err::<MessageModel, ErrorModel>(
            ErrorModel::VersionMismatch(m.header.version),
        ),
        m.header.version == 1 && m.header.id != expected ==> validated(expected, m) == Err::<
            MessageModel,
            ErrorModel,
        >(ErrorModel::ResponseIdMismatch { expected, got: m.header.id }),
        m.header.version == 1 && m.header.id == expected && m.header.ec != 0 ==> (validated(
            expected,
            m,
        ) matches Err(ErrorModel::ServerError { code, message }) && (code.wire() == m.header.ec || (
        code == ErrorCode::ParseError && m.header.ec > 9 && m.header.ec != 4096)) && (
        vstd::utf8::valid_utf8(m.body) ==> message == vstd::utf8::decode_utf8(m.body)) && (
        !vstd::utf8::valid_utf8(m.body) ==> message == code.label())),
{
    if let Some(code) = ErrorCode::of_wire(m.header.ec) {
        crate::constants::the_wire_numbers_are_those_of_the_protocol(
            QueryFormat::RawBinary,
            BodyFormat::RawBinary,
            code,
            0,
            m.header.ec,
        );
    } else {
        crate::constants::the_wire_numbers_are_those_of_the_protocol(
            QueryFormat::RawBinary,
            BodyFormat::RawBinary,
            ErrorCode::ParseError,
            0,
            m.header.ec,
        );
    }
}

/// A call that gets no response fails for what happened to it: the error that it
/// was failed with, a timeout, or that nobody is left to answer it.
pub proof fn a_call_without_a_response_fails(id: u64, received: Received)
    ensures
        received matches Received::Value(Ok(m)) ==> call_result(id, received) == validated(id, m@),
        received matches Received::Value(Err(e)) ==> call_result(id, received) == Err::<
            MessageModel,
            ErrorModel,
        >(e@),
        received is TimedOut ==> (call_result(id, received) matches Err(ErrorModel::Io {
            kind,
            ..
        }) && kind == IoKind::TimedOut),
        received is ChannelClosed ==> (call_result(id, received) matches Err(ErrorModel::Io {
            kind,
            ..
        }) && kind == IoKind::ConnectionAborted),
{
}

/// The body of a response is read by its format: JSON and text as JSON, BEVE as
/// BEVE. Raw bytes and unknown formats hold no value.
pub proof fn a_response_is_read_by_its_format(m: MessageModel)
    ensures
        m.header.body_format == 2 || m.header.body_format == 3 ==> response_value(m)
            == match codec::json_parsed(m.body) {
            Ok(v) => Ok::<Value, ErrorModel>(v),
            Err(text) => Err(ErrorModel::Json(text)),
        },
        m.header.body_format == 1 ==> response_value(m) == match codec::beve_parsed(m.body) {
            Ok(v) => Ok::<Value, ErrorModel>(v),
            Err(text) => Err(ErrorModel::Beve(text)),
        },
        m.header.body_format == 0 ==> (response_value(m) matches Err(e) && e is Json),
        m.header.body_format > 3 ==> response_value(m) == Err::<Value, ErrorModel>(
            ErrorModel::UnknownEnumValue(m.header.body_format as u64),
        ),
{
}

/// A call is read by the server as it was made: under its id, with its path, its
/// formats and its body, as a notify exactly where it is one.
pub proof fn a_call_is_read_as_it_was_made(
    id: u64,
    notify: bool,
    path: Seq<char>,
    query_format: u16,
    body: Seq<u8>,
    body_format: u16,
)
    requires
        48 + vstd::utf8::encode_utf8(path).len() + body.len() <= u64::MAX,
    ensures
        ({
            let call = call_message(id, notify, path, query_format, body, body_format);
            message::parse_exact(message::frame_bytes(call.header, call.query, call.body))
                matches Ok(m) && {
                &&& m == call
                &&& m.header.id == id
                &&& m.header.version == 1
                &&& m.header.ec == 0
                &&& m.header.notify == if notify {
                    1u8
                } else {
                    0u8
                }
                &&& m.header.query_format == query_format
                &&& m.header.body_format == body_format
                &&& vstd::utf8::valid_utf8(m.query)
                &&& vstd::utf8::decode_utf8(m.query) == path
                &&& m.body == body
            }
        }),
{
    let call = call_message(id, notify, path, query_format, body, body_format);
    let b = message::frame_bytes(call.header, call.query, call.body);
    assert(b + Seq::<u8>::empty() =~= b);
    message::frame_round_trip(call.header, call.query, call.body, Seq::empty());
    vstd::utf8::encode_utf8_decode_utf8(path);
    vstd::utf8::encode_utf8_valid_utf8(path);
}

/// A request that waits when the connection fails hears of that failure: the same
/// error, under the same code, which names the request where it is in words.
pub proof fn a_waiter_hears_what_happened(e: ErrorModel, id: u64)
    ensures
        waiter_error(e, id).error_code() == e.error_code(),
        match e {
            ErrorModel::Io { kind, message } => waiter_error(e, id) == (ErrorModel::Io {
                kind,
                message: "request "@ + text::decimal(id as nat) + ": "@ + message,
            }),
            ErrorModel::Json(message) => waiter_error(e, id) == ErrorModel::Json(
                "request "@ + text::decimal(id as nat) + ": "@ + message,
            ),
            ErrorModel::Beve(message) => waiter_error(e, id) == ErrorModel::Beve(
                "request "@ + text::decimal(id as nat) + ": "@ + message,
            ),
            _ => waiter_error(e, id) == e,
        },
{
}

/// When a connection fails, every request that waits hears of it, each once.
pub proof fn no_waiter_is_forgotten<S>(
    pending: Map<u64, S>,
    e: ErrorModel,
    r: Seq<(u64, S, RepeError)>,
    id: u64,
)
    requires
        pending.dom().finite(),
        failed_waiters(pending, e, r),
        pending.contains_key(id),
    ensures
        exists|j: int|
            0 <= j < r.len() && (#[trigger] r[j]).0 == id && r[j].1 == pending[id] && r[j].2@
                == waiter_error(e, id),
{
    let ids = Seq::new(r.len(), |j: int| r[j].0);
    assert(ids.no_duplicates()) by {
        assert forall|i: int, j: int| 0 <= i < ids.len() && 0 <= j < ids.len() && i != j implies ids[i]
            != ids[j] by {
            assert(r[i].0 != r[j].0);
        }
    }
    ids.unique_seq_to_set();
    assert forall|x: u64| ids.to_set().contains(x) implies pending.dom().contains(x) by {
        let j = choose|j: int| 0 <= j < ids.len() && ids[j] == x;
        assert(pending.contains_key(r[j].0));
    }
    vstd::set_lib::lemma_subset_equality(ids.to_set(), pending.dom());
    assert(ids.to_set().contains(id));
    let j = choose|j: int| 0 <= j < ids.len() && ids[j] == id;
    assert(r[j].0 == id);
}

/// The result of a batch stands in the place of its request, also where some
/// requests have none: what is there came for that request.
pub proof fn a_batch_result_is_that_of_its_request<T>(finished: Seq<(usize, T)>, index: int)
    ensures
        batch_result(finished, index) matches Some(result) ==> exists|j: int|
            0 <= j < finished.len() && (#[trigger] finished[j]).0 == index && finished[j].1
                == result,
        batch_result(finished, index) is None ==> forall|j: int|
            0 <= j < finished.len() ==> (#[trigger] finished[j]).0 != index,
    decreases finished.len(),
{
    if finished.len() > 0 {
        let rest = finished.drop_last();
        a_batch_result_is_that_of_its_request(rest, index);
        if finished.last().0 == index {
            assert(finished[finished.len() - 1].0 == index);
        } else {
            if let Some(result) = batch_result(rest, index) {
                let j = choose|j: int|
                    0 <= j < rest.len() && (#[trigger] rest[j]).0 == index && rest[j].1 == result;
                assert(finished[j] == rest[j]);
            } else {
                assert forall|j: int| 0 <= j < finished.len() implies (#[trigger] finished[j]).0
                    != index by {
                    if j < rest.len() {
                        assert(rest[j] == finished[j]);
                    }
                }
            }
        }
    }
}

/// A call that is begun is sent under an id of its own and waits under that id:
/// it fails only for a body that could not be written or an id that is in use, and
/// then nothing waits for it.
pub proof fn a_begun_call_waits_under_its_id<S>(
    next: u64,
    pending: Map<u64, S>,
    sender: S,
    path: Seq<char>,
    query_format: u16,
    body: Result<Seq<u8>, ErrorModel>,
    body_format: u16,
)
    ensures
        ({
            let call = begun(next, pending, path, query_format, body, body_format);
            let waiting = waiting_with(pending, call, sender);
            &&& call is Ok <==> body is Ok && !pending.contains_key(next)
            &&& call matches Ok(m) ==> {
                &&& m.header.id == next
                &&& m.header.notify == 0
                &&& m.header.query_format == query_format
                &&& m.header.body_format == body_format
                &&& m.query == vstd::utf8::encode_utf8(path)
                &&& Ok::<Seq<u8>, ErrorModel>(m.body) == body
                &&& waiting.contains_key(next)
                &&& waiting[next] == sender
                &&& waiting.remove(next) == pending
            }
            &&& call is Err ==> waiting == pending
            &&& body matches Err(e) ==> call == Err::<MessageModel, ErrorModel>(e)
            &&& call is Err && body is Ok ==> (call matches Err(ErrorModel::Io { kind, .. })
                && kind == IoKind::AlreadyExists)
        }),
{
    let call = begun(next, pending, path, query_format, body, body_format);
    if call is Ok {
        assert(pending.insert(next, sender).remove(next) =~= pending);
    }
}

/// A call leaves nothing behind, however it ends: once it has its response, its
/// error, a timeout, or nobody to answer it, the requests that wait are those that
/// waited before it.
pub proof fn a_finished_call_leaves_nothing_behind<S>(
    pending: Map<u64, S>,
    subscribed: bool,
    sender: S,
    response: MessageModel,
    received: Received,
)
    requires
        !pending.contains_key(response.header.id),
        response.header.notify == 0,
    ensures
        ({
            let id = response.header.id;
            let waiting = pending.insert(id, sender);
            let answered = pending_after(waiting, delivery(waiting, subscribed, response));
            &&& answered == pending
            &&& waiting_after(answered, id, received) == pending
            &&& !(received matches Received::Value(Ok(_))) ==> waiting_after(waiting, id, received)
                == pending
        }),
{
    let id = response.header.id;
    assert(pending.insert(id, sender).remove(id) =~= pending);
    assert(pending.remove(id) =~= pending);
}

/// A notify is sent as one, under an id of its own, and fails only for a body that
/// could not be written.
pub proof fn a_begun_notify_is_one(
    next: u64,
    path: Seq<char>,
    query_format: u16,
    body: Result<Seq<u8>, ErrorModel>,
    body_format: u16,
)
    ensures
        body matches Ok(bytes) ==> (notify_begun(next, path, query_format, body, body_format)
            matches Ok(m) && m.header.notify == 1 && m.header.id == next && m.header.query_format
            == query_format && m.header.body_format == body_format && m.query
            == vstd::utf8::encode_utf8(path) && m.body == bytes),
        body matches Err(e) ==> notify_begun(next, path, query_format, body, body_format) == Err::<
            MessageModel,
            ErrorModel,
        >(e),
{
}

/// There is one subscription at a time: a live one is neither displaced nor lost,
/// and one that nobody listens to makes room.
pub proof fn there_is_one_subscription_at_a_time<N>(present: Option<N>, closed: bool, sender: N)
    ensures
        may_subscribe(present, closed) <==> !(present is Some && !closed),
        present is Some && !closed ==> subscribed_with(present, closed, sender) == present,
        present is None || closed ==> subscribed_with(present, closed, sender) == Some(sender),
{
}

} // verus!
