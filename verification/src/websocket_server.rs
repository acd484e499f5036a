//! Serving requests over WebSocket connections.
//!
//! The sockets, tasks and channels are the embedder's. Here stands what they
//! are told to do: how a server is configured, what each frame that is read
//! leads to ([`reader_step`]), what an off-reader handler's run comes to
//! ([`off_reader_reply`]), what the writer does next ([`writer_step`]), who hears
//! of an error ([`report_error`]), and what a connection ends with.

use crate::constants::{BodyFormat, ErrorCode, QueryFormat};
use crate::error::{ErrorModel, IoError, IoKind, RepeError};
use crate::handler::{Execution, HandlerErased, Middleware, Outcome};
use crate::message;
use crate::message::{create_error_response_like, Header, Message, MessageModel};
use crate::path;
use crate::path::{starts_with_slash, trim_end_slashes};
use crate::peer::{CallContext, CtxModel, PeerHandle, PeerId};
use crate::server::{Composed, DispatchModel, Dispatched, Router, RouterModel};
use crate::server_request;
use crate::server_request::{dispatch, echo_query, resolve, Resolution, Verdict};
use crate::text::{concat2, concat3, text_equal, utf8_text};
use std::sync::Arc;
use vstd::prelude::*;

verus! {

/// Messages that wait to be sent on one connection, unless told otherwise.
pub const DEFAULT_OUTBOUND_CAPACITY: usize = 256;

/// Off-reader handlers that run at once on one connection, unless told
/// otherwise.
pub const DEFAULT_OFFREADER_LIMIT: usize = 16;

/// How long a closing connection may take to send what still waits, in
/// milliseconds.
pub const SHUTDOWN_DRAIN_TIMEOUT_MS: u64 = 5000;

// ---- errors ----

/// Something that went wrong on a connection.
#[non_exhaustive]
#[derive(Debug)]
pub enum ConnectionError {
    /// The upgrade failed, and there is no connection.
    Handshake(RepeError),
    /// A connection ended on an error.
    Connection(RepeError),
    /// An off-reader handler panicked. The connection goes on.
    HandlerPanic { method: String },
    /// An off-reader request was turned away because too many were running.
    Saturation { method: String },
}

/// What a [`ConnectionError`] says.
pub enum ConnectionFault {
    Handshake(ErrorModel),
    Connection(ErrorModel),
    HandlerPanic(Seq<char>),
    Saturation(Seq<char>),
}

impl View for ConnectionError {
    type V = ConnectionFault;

    open spec fn view(&self) -> ConnectionFault {
        match *self {
            ConnectionError::Handshake(e) => ConnectionFault::Handshake(e@),
            ConnectionError::Connection(e) => ConnectionFault::Connection(e@),
            ConnectionError::HandlerPanic { method } => ConnectionFault::HandlerPanic(method@),
            ConnectionError::Saturation { method } => ConnectionFault::Saturation(method@),
        }
    }
}

impl ConnectionFault {
    /// The code that reaches the client, if any response does.
    pub open spec fn error_code(self) -> Option<ErrorCode> {
        match self {
            ConnectionFault::HandlerPanic(_) => Some(ErrorCode::InternalError),
            ConnectionFault::Saturation(_) => Some(ErrorCode::ResourceExhausted),
            _ => None,
        }
    }

    /// What the error says to a reader.
    pub open spec fn text(self) -> Seq<char> {
        match self {
            ConnectionFault::Handshake(e) => "websocket handshake error: "@ + e.text(),
            ConnectionFault::Connection(e) => "websocket connection error: "@ + e.text(),
            ConnectionFault::HandlerPanic(method) => "off-reader handler panicked for "@ + method
                + "; connection kept alive"@,
            ConnectionFault::Saturation(method) => "off-reader dispatch limit reached for "@
                + method + "; retry"@,
        }
    }
}

impl ConnectionError {
    /// The code that reaches the client, if any response does.
    pub fn error_code(&self) -> (r: Option<ErrorCode>)
        ensures
            r == self@.error_code(),
    {
        match self {
            ConnectionError::HandlerPanic { .. } => Some(ErrorCode::InternalError),
            ConnectionError::Saturation { .. } => Some(ErrorCode::ResourceExhausted),
            ConnectionError::Handshake(_) => None,
            ConnectionError::Connection(_) => None,
        }
    }

    /// What the error says to a reader.
    pub fn text(&self) -> (s: String)
        ensures
            s@ == self@.text(),
    {
        match self {
            ConnectionError::Handshake(e) => concat2(
                "websocket handshake error: ",
                e.text().as_str(),
            ),
            ConnectionError::Connection(e) => concat2(
                "websocket connection error: ",
                e.text().as_str(),
            ),
            ConnectionError::HandlerPanic { method } => concat3(
                "off-reader handler panicked for ",
                method.as_str(),
                "; connection kept alive",
            ),
            ConnectionError::Saturation { method } => concat3(
                "off-reader dispatch limit reached for ",
                method.as_str(),
                "; retry",
            ),
        }
    }

    /// The error that caused this one, if there is one.
    pub fn source(&self) -> (r: Option<&RepeError>)
        ensures
            match self@ {
                ConnectionFault::Handshake(e) => r matches Some(s) && s@ == e,
                ConnectionFault::Connection(e) => r matches Some(s) && s@ == e,
                _ => r is None,
            },
    {
        match self {
            ConnectionError::Handshake(e) => Some(e),
            ConnectionError::Connection(e) => Some(e),
            ConnectionError::HandlerPanic { .. } => None,
            ConnectionError::Saturation { .. } => None,
        }
    }
}

/// What is done next to report an error.
pub enum ReportStep {
    /// Call the hook at this place.
    Call(usize),
    /// Write this line to the standard error stream.
    Print(String),
    /// The error is reported.
    Done,
}

/// What a [`ReportStep`] says.
pub enum ReportModel {
    Call(nat),
    Print(Seq<char>),
    Done,
}

impl View for ReportStep {
    type V = ReportModel;

    open spec fn view(&self) -> ReportModel {
        match *self {
            ReportStep::Call(i) => ReportModel::Call(i as nat),
            ReportStep::Print(line) => ReportModel::Print(line@),
            ReportStep::Done => ReportModel::Done,
        }
    }
}

/// The line that an error is logged as.
pub open spec fn log_line(err: ConnectionFault) -> Seq<char> {
    "[repe] "@ + err.text()
}

/// What is done to report an error to `hooks` hooks after `taken` steps: the
/// hooks are called one after the other. Without any the error is logged, unless
/// it is a saturation, which nothing is said of.
pub open spec fn report_next(hooks: nat, err: ConnectionFault, taken: nat) -> ReportModel {
    if taken < hooks {
        ReportModel::Call(taken)
    } else if hooks == 0 && taken == 0 && err !is Saturation {
        ReportModel::Print(log_line(err))
    } else {
        ReportModel::Done
    }
}

/// What is done next to report an error, after `taken` steps.
pub fn report_step<E>(hooks: &Vec<E>, err: &ConnectionError, taken: usize) -> (step: ReportStep)
    ensures
        step@ == report_next(hooks@.len(), err@, taken as nat),
{
    if taken < hooks.len() {
        return ReportStep::Call(taken);
    }
    if hooks.len() > 0 || taken > 0 {
        return ReportStep::Done;
    }
    match err {
        ConnectionError::Saturation { .. } => ReportStep::Done,
        logged => ReportStep::Print(concat2("[repe] ", logged.text().as_str())),
    }
}

/// Reports an error: calls every hook, in the order in which they were
/// registered. Without any it returns the line that is to be written to the
/// standard error stream, if there is one.
pub fn report_error<E: Fn(&ConnectionError)>(hooks: &Vec<E>, err: &ConnectionError) -> (r: Option<
    String,
>)
    requires
        forall|i: int| 0 <= i < hooks@.len() ==> call_requires(#[trigger] hooks@[i], (err,)),
    ensures
        forall|i: int| 0 <= i < hooks@.len() ==> call_ensures(#[trigger] hooks@[i], (err,), ()),
        match r {
            Some(line) => hooks@.len() == 0 && err@ !is Saturation && line@ == log_line(err@),
            None => hooks@.len() > 0 || err@ is Saturation,
        },
{
    let n: usize = hooks.len();
    let mut taken: usize = 0;
    while taken < n
        invariant
            taken <= n,
            n == hooks@.len(),
            forall|i: int| 0 <= i < n ==> call_requires(#[trigger] hooks@[i], (err,)),
            forall|i: int| 0 <= i < taken ==> call_ensures(#[trigger] hooks@[i], (err,), ()),
        decreases n - taken,
    {
        if let ReportStep::Call(i) = report_step(hooks, err, taken) {
            let hook = &hooks[i];
            hook(err);
        }
        taken = taken + 1;
    }
    match report_step(hooks, err, taken) {
        ReportStep::Print(line) => Some(line),
        _ => None,
    }
}

/// Everything that is done to report an error, from step `taken` on.
pub open spec fn report_steps(hooks: nat, err: ConnectionFault, taken: nat) -> Seq<ReportModel>
    decreases hooks + 1 - taken,
{
    match report_next(hooks, err, taken) {
        ReportModel::Done => Seq::empty(),
        step => seq![step] + report_steps(hooks, err, taken + 1),
    }
}

proof fn report_steps_call_the_rest(hooks: nat, err: ConnectionFault, taken: nat)
    requires
        0 < hooks,
        taken <= hooks,
    ensures
        report_steps(hooks, err, taken) == Seq::new(
            (hooks - taken) as nat,
            |i: int| ReportModel::Call((taken + i) as nat),
        ),
    decreases hooks - taken,
{
    let calls = Seq::new((hooks - taken) as nat, |i: int| ReportModel::Call((taken + i) as nat));
    if taken < hooks {
        report_steps_call_the_rest(hooks, err, taken + 1);
        assert(report_steps(hooks, err, taken) =~= calls);
    } else {
        assert(calls =~= Seq::<ReportModel>::empty());
    }
}

/// Every hook hears of an error once, in the order in which they were
/// registered, and nothing is logged. Without hooks the error is logged, once,
/// unless it is a saturation: that passes in silence.
pub proof fn every_hook_hears_of_an_error_once(hooks: nat, err: ConnectionFault)
    ensures
        report_steps(hooks, err, 0) == if hooks > 0 {
            Seq::new(hooks, |i: int| ReportModel::Call(i as nat))
        } else if err is Saturation {
            Seq::empty()
        } else {
            seq![ReportModel::Print(log_line(err))]
        },
{
    if hooks > 0 {
        report_steps_call_the_rest(hooks, err, 0);
        assert(report_steps(hooks, err, 0) =~= Seq::new(
            hooks,
            |i: int| ReportModel::Call(i as nat),
        ));
    } else {
        assert(report_steps(hooks, err, 1) =~= Seq::<ReportModel>::empty());
        if err !is Saturation {
            assert(report_steps(hooks, err, 0) =~= seq![ReportModel::Print(log_line(err))]);
        }
    }
}

/// Why the transport failed.
#[derive(Debug)]
pub enum TransportFault {
    /// The socket failed.
    Io(IoError),
    /// The connection was closed, in words.
    Closed(String),
    /// Anything else, in words.
    Other(String),
}

/// The error that a transport failure is reported as.
pub open spec fn transport_error(fault: TransportFault) -> ErrorModel {
    match fault {
        TransportFault::Io(e) => ErrorModel::Io { kind: e.kind, message: e.message@ },
        TransportFault::Closed(_) => closed_error(),
        TransportFault::Other(text) => ErrorModel::Io { kind: IoKind::Other, message: text@ },
    }
}

/// The error for a connection that was closed.
pub open spec fn closed_error() -> ErrorModel {
    ErrorModel::Io { kind: IoKind::ConnectionAborted, message: "websocket connection closed"@ }
}

/// The error for a frame of text.
pub open spec fn not_binary_error() -> ErrorModel {
    ErrorModel::Io {
        kind: IoKind::InvalidData,
        message: "websocket transport requires binary messages"@,
    }
}

/// The error for a connection that was closed.
pub fn websocket_closed_error() -> (e: RepeError)
    ensures
        e@ == closed_error(),
{
    RepeError::io(IoKind::ConnectionAborted, "websocket connection closed")
}

/// An error for data that cannot be read.
pub fn websocket_invalid_data_error(message: &str) -> (e: RepeError)
    ensures
        e@ == (ErrorModel::Io { kind: IoKind::InvalidData, message: message@ }),
{
    RepeError::io(IoKind::InvalidData, message)
}

/// The error that a transport failure is reported as.
pub fn websocket_transport_error(fault: TransportFault) -> (e: RepeError)
    ensures
        e@ == transport_error(fault),
{
    match fault {
        TransportFault::Io(e) => RepeError::Io(e),
        TransportFault::Closed(_) => websocket_closed_error(),
        TransportFault::Other(text) => RepeError::io(IoKind::Other, text.as_str()),
    }
}

// ---- frames ----

/// A frame as the transport hands it over.
pub enum Inbound {
    Binary(Vec<u8>),
    Text,
    Ping,
    Pong,
    /// A frame that is not a whole message.
    Raw,
    Close,
}

/// What a frame holds.
pub enum FrameModel {
    Binary(Seq<u8>),
    Text,
    Ping,
    Pong,
    Raw,
    Close,
}

impl View for Inbound {
    type V = FrameModel;

    open spec fn view(&self) -> FrameModel {
        match *self {
            Inbound::Binary(payload) => FrameModel::Binary(payload@),
            Inbound::Text => FrameModel::Text,
            Inbound::Ping => FrameModel::Ping,
            Inbound::Pong => FrameModel::Pong,
            Inbound::Raw => FrameModel::Raw,
            Inbound::Close => FrameModel::Close,
        }
    }
}

/// What a frame means to a server.
pub enum FrameAction {
    Message(Message),
    Continue,
    Close,
}

/// What a frame means: a message, nothing, or the end.
pub enum ActionModel {
    Message(MessageModel),
    Continue,
    Close,
}

impl View for FrameAction {
    type V = ActionModel;

    open spec fn view(&self) -> ActionModel {
        match *self {
            FrameAction::Message(m) => ActionModel::Message(m@),
            FrameAction::Continue => ActionModel::Continue,
            FrameAction::Close => ActionModel::Close,
        }
    }
}

/// What a frame means: a binary frame holds exactly one message, control frames
/// mean nothing, and text is refused.
pub open spec fn frame_action(frame: FrameModel) -> Result<ActionModel, ErrorModel> {
    match frame {
        FrameModel::Binary(payload) => match message::parse_exact(payload) {
            Ok(m) => Ok(ActionModel::Message(m)),
            Err(e) => Err(e),
        },
        FrameModel::Text => Err(not_binary_error()),
        FrameModel::Close => Ok(ActionModel::Close),
        _ => Ok(ActionModel::Continue),
    }
}

/// What a frame means to a server.
pub fn decode_request_frame(frame: &Inbound) -> (r: Result<FrameAction, RepeError>)
    ensures
        match r {
            Ok(action) => frame_action(frame@) == Ok::<ActionModel, ErrorModel>(action@),
            Err(e) => frame_action(frame@) == Err::<ActionModel, ErrorModel>(e@),
        },
{
    match frame {
        Inbound::Binary(payload) => match Message::from_slice_exact(payload.as_slice()) {
            Ok(m) => Ok(FrameAction::Message(m)),
            Err(e) => Err(e),
        },
        Inbound::Ping => Ok(FrameAction::Continue),
        Inbound::Pong => Ok(FrameAction::Continue),
        Inbound::Raw => Ok(FrameAction::Continue),
        Inbound::Close => Ok(FrameAction::Close),
        Inbound::Text => Err(
            websocket_invalid_data_error("websocket transport requires binary messages"),
        ),
    }
}

// ---- off-reader slots ----

/// How many more off-reader handlers may run on a connection.
pub struct OffReaderSlots {
    limit: Option<usize>,
    free: usize,
}

/// The state of [`OffReaderSlots`]: the limit, if there is one, and how many
/// slots are free.
pub struct SlotsModel {
    pub limit: Option<nat>,
    pub free: nat,
}

impl SlotsModel {
    /// No more slots are free than there are.
    pub open spec fn wf(self) -> bool {
        match self.limit {
            Some(n) => self.free <= n,
            None => self.free == 0,
        }
    }

    /// Whether no further handler may run.
    pub open spec fn full(self) -> bool {
        self.limit is Some && self.free == 0
    }

    /// How many handlers are running, where that is counted.
    pub open spec fn running(self) -> nat {
        match self.limit {
            Some(n) => (n - self.free) as nat,
            None => 0,
        }
    }

    /// One slot less.
    pub open spec fn taken(self) -> SlotsModel {
        match self.limit {
            Some(_) => SlotsModel { free: (self.free - 1) as nat, ..self },
            None => self,
        }
    }

    /// One slot more.
    pub open spec fn released(self) -> SlotsModel {
        match self.limit {
            Some(_) => SlotsModel { free: self.free + 1, ..self },
            None => self,
        }
    }
}

impl View for OffReaderSlots {
    type V = SlotsModel;

    closed spec fn view(&self) -> SlotsModel {
        SlotsModel {
            limit: match self.limit {
                Some(n) => Some(n as nat),
                None => None,
            },
            free: self.free as nat,
        }
    }
}

impl OffReaderSlots {
    /// All the slots of a connection, free. Without a limit nothing is counted.
    pub fn new(limit: Option<usize>) -> (s: OffReaderSlots)
        ensures
            s@.wf(),
            match limit {
                Some(n) => s@ == (SlotsModel { limit: Some(n as nat), free: n as nat }),
                None => s@ == (SlotsModel { limit: None, free: 0 }),
            },
    {
        match limit {
            Some(n) => OffReaderSlots { limit, free: n },
            None => OffReaderSlots { limit, free: 0 },
        }
    }

    /// Takes a slot, if one is free. It never waits.
    pub fn try_acquire(&mut self) -> (taken: bool)
        requires
            old(self)@.wf(),
        ensures
            final(self)@.wf(),
            taken == !old(self)@.full(),
            final(self)@ == if taken {
                old(self)@.taken()
            } else {
                old(self)@
            },
    {
        match self.limit {
            Some(_) => {
                if self.free == 0 {
                    false
                } else {
                    self.free = self.free - 1;
                    true
                }
            },
            None => true,
        }
    }

    /// Gives a slot back.
    pub fn release(&mut self)
        requires
            old(self)@.wf(),
            old(self)@.limit is Some ==> old(self)@.running() > 0,
        ensures
            final(self)@.wf(),
            final(self)@ == old(self)@.released(),
    {
        match self.limit {
            Some(_) => {
                self.free = self.free + 1;
            },
            None => {},
        }
    }
}

// ---- the reader ----

/// What a frame leads to.
pub enum ReaderStep<H, M> {
    /// Read on.
    Continue,
    /// Stop reading.
    Close,
    /// Stop reading with an error.
    Fail(RepeError),
    /// Send the response and read on.
    Reply(Message),
    /// Run the handler off the reader, in the slot that was taken, and read on.
    Spawn { handler: Dispatched<H, M>, request: Message, notify: bool },
    /// Report the error, send the response if there is one, and read on.
    Saturated { error: ConnectionError, response: Option<Message> },
}

/// What a [`ReaderStep`] says.
pub enum StepModel<H, M> {
    Continue,
    Close,
    Fail(ErrorModel),
    Reply(MessageModel),
    Spawn { handler: DispatchModel<H, M>, request: MessageModel, notify: bool },
    Saturated { error: ConnectionFault, response: Option<MessageModel> },
}

impl<H, M> View for ReaderStep<H, M> {
    type V = StepModel<H, M>;

    open spec fn view(&self) -> StepModel<H, M> {
        match *self {
            ReaderStep::Continue => StepModel::Continue,
            ReaderStep::Close => StepModel::Close,
            ReaderStep::Fail(e) => StepModel::Fail(e@),
            ReaderStep::Reply(m) => StepModel::Reply(m@),
            ReaderStep::Spawn { handler, request, notify } => StepModel::Spawn {
                handler: handler@,
                request: request@,
                notify,
            },
            ReaderStep::Saturated { error, response } => StepModel::Saturated {
                error: error@,
                response: server_request::response(response),
            },
        }
    }
}

/// The response to a request that finds no free slot.
pub open spec fn saturated_reply(req: MessageModel) -> MessageModel {
    server_request::echoed(
        message::error_reply(
            req.header,
            ErrorCode::ResourceExhausted,
            "off-reader dispatch limit reached; retry"@,
        ),
        req.query,
    )
}

/// Whether `m` may be answered to `req` by a handler.
pub open spec fn answered_by<H: HandlerErased, M: Middleware<Composed<H>>>(
    handler: DispatchModel<H, M>,
    req: MessageModel,
    ctx: CtxModel,
    m: MessageModel,
) -> bool {
    exists|out: Outcome| #[trigger]
        handler.answers(req, Some(ctx), out) && m == server_request::echoed(
            server_request::settled(req.header, out),
            req.query,
        )
}

/// Whether a handler was called for `req`.
pub open spec fn carried_out<H: HandlerErased, M: Middleware<Composed<H>>>(
    handler: DispatchModel<H, M>,
    req: MessageModel,
    ctx: CtxModel,
) -> bool {
    exists|out: Outcome| #[trigger] handler.answers(req, Some(ctx), out)
}

/// Whether a frame may lead to `step`, with the slots as they are before and
/// after it.
pub open spec fn stepped<H: HandlerErased, M: Middleware<Composed<H>>>(
    router: RouterModel<H, M>,
    peer: PeerHandle,
    frame: FrameModel,
    before: SlotsModel,
    after: SlotsModel,
    step: StepModel<H, M>,
) -> bool {
    match frame_action(frame) {
        Err(e) => step == StepModel::<H, M>::Fail(e) && after == before,
        Ok(ActionModel::Continue) => step == StepModel::<H, M>::Continue && after == before,
        Ok(ActionModel::Close) => step == StepModel::<H, M>::Close && after == before,
        Ok(ActionModel::Message(req)) => {
            let notify = server_request::is_notify(req.header);
            match server_request::verdict(router, req.header, req.query) {
                Verdict::Reject { code, text } => {
                    &&& after == before
                    &&& step == if notify {
                        StepModel::<H, M>::Continue
                    } else {
                        StepModel::<H, M>::Reply(
                            server_request::echoed(
                                message::error_reply(req.header, code, text),
                                req.query,
                            ),
                        )
                    }
                },
                Verdict::Dispatch { handler, path } => match handler.runs() {
                    Execution::Inline => {
                        &&& after == before
                        &&& if notify {
                            step == StepModel::<H, M>::Continue && carried_out(
                                handler,
                                req,
                                CtxModel { method: path, peer: Some(peer) },
                            )
                        } else {
                            step matches StepModel::Reply(m) && answered_by(
                                handler,
                                req,
                                CtxModel { method: path, peer: Some(peer) },
                                m,
                            )
                        }
                    },
                    Execution::OffReader => if before.full() {
                        &&& after == before
                        &&& step == (StepModel::<H, M>::Saturated {
                            error: ConnectionFault::Saturation(path),
                            response: if notify {
                                None
                            } else {
                                Some(saturated_reply(req))
                            },
                        })
                    } else {
                        &&& after == before.taken()
                        &&& step == (StepModel::<H, M>::Spawn { handler, request: req, notify })
                    },
                },
            }
        },
    }
}

/// The path of a request that was routed.
fn routed_path(req: &Message) -> (s: &str)
    requires
        vstd::utf8::valid_utf8(req.query@),
    ensures
        s@ == vstd::utf8::decode_utf8(req.query@),
{
    match utf8_text(req.query.as_slice()) {
        Some(s) => s,
        None => "",
    }
}

/// Decides what a frame leads to, and calls the handler if it runs inline. An
/// off-reader request takes a slot or is turned away; the reader never waits
/// for one, because what would free it may be in the next frame.
pub fn reader_step<H: HandlerErased, M: Middleware<Composed<H>>>(
    router: &Router<H, M>,
    peer: &PeerHandle,
    frame: &Inbound,
    slots: &mut OffReaderSlots,
) -> (step: ReaderStep<H, M>)
    requires
        router.wf(),
        old(slots)@.wf(),
    ensures
        final(slots)@.wf(),
        stepped(router@, *peer, frame@, old(slots)@, final(slots)@, step@),
{
    let request = match decode_request_frame(frame) {
        Ok(FrameAction::Message(m)) => m,
        Ok(FrameAction::Continue) => {
            return ReaderStep::Continue;
        },
        Ok(FrameAction::Close) => {
            return ReaderStep::Close;
        },
        Err(e) => {
            return ReaderStep::Fail(e);
        },
    };
    match resolve(router, &request) {
        Resolution::Respond(None) => ReaderStep::Continue,
        Resolution::Respond(Some(m)) => ReaderStep::Reply(
            echo_query(m, request.query.as_slice()),
        ),
        Resolution::Dispatch { handler, notify } => match handler.execution() {
            Execution::Inline => {
                match run_handler(&handler, &request, peer, notify) {
                    Some(m) => {
                        assert(answered_by(
                            handler@,
                            request@,
                            CtxModel {
                                method: vstd::utf8::decode_utf8(request.query@),
                                peer: Some(*peer),
                            },
                            m@,
                        ));
                        ReaderStep::Reply(m)
                    },
                    None => ReaderStep::Continue,
                }
            },
            Execution::OffReader => {
                if slots.try_acquire() {
                    ReaderStep::Spawn { handler, request, notify }
                } else {
                    let error = ConnectionError::Saturation {
                        method: routed_path(&request).to_owned(),
                    };
                    let response = if notify {
                        None
                    } else {
                        Some(
                            echo_query(
                                create_error_response_like(
                                    &request,
                                    ErrorCode::ResourceExhausted,
                                    "off-reader dispatch limit reached; retry",
                                ),
                                request.query.as_slice(),
                            ),
                        )
                    };
                    ReaderStep::Saturated { error, response }
                }
            },
        },
    }
}

/// Calls a handler for a request of `peer`. What an off-reader run does, and
/// what the reader does for a handler that runs inline. A notify is carried out
/// and not answered.
pub fn run_handler<H: HandlerErased, M: Middleware<Composed<H>>>(
    handler: &Dispatched<H, M>,
    request: &Message,
    peer: &PeerHandle,
    notify: bool,
) -> (r: Option<Message>)
    requires
        vstd::utf8::valid_utf8(request.query@),
    ensures
        match r {
            None => notify && carried_out(
                handler@,
                request@,
                CtxModel {
                    method: vstd::utf8::decode_utf8(request.query@),
                    peer: Some(*peer),
                },
            ),
            Some(m) => !notify && answered_by(
                handler@,
                request@,
                CtxModel {
                    method: vstd::utf8::decode_utf8(request.query@),
                    peer: Some(*peer),
                },
                m@,
            ),
        },
{
    let ctx = CallContext::new(routed_path(request), peer);
    match dispatch(handler, request, &ctx, notify) {
        None => {
            let ghost out = choose|out: Outcome| #[trigger]
                handler.answers(request@, Some(ctx@), out);
            assert(handler@.answers(request@, Some(ctx@), out));
            None
        },
        Some(m) => {
            let ghost out = choose|out: Outcome| #[trigger]
                handler.answers(request@, Some(ctx@), out) && m@ == server_request::settled(
                    request@.header,
                    out,
                );
            let echoed = echo_query(m, request.query.as_slice());
            assert(handler@.answers(request@, Some(ctx@), out));
            Some(echoed)
        },
    }
}

/// What the run of an off-reader handler ended with.
pub enum RunEnd {
    Returned(Option<Message>),
    Panicked,
}

/// The response to a request whose handler panicked.
pub open spec fn panicked_reply(req: MessageModel) -> MessageModel {
    server_request::echoed(
        message::error_reply(req.header, ErrorCode::InternalError, "handler panicked"@),
        req.query,
    )
}

/// What is sent when an off-reader run has ended, and what is reported.
pub open spec fn run_outcome(req: MessageModel, notify: bool, end: RunEnd) -> (
    Option<MessageModel>,
    Option<ConnectionFault>,
) {
    match end {
        RunEnd::Returned(m) => (server_request::response(m), None),
        RunEnd::Panicked => (
            if notify {
                None
            } else {
                Some(panicked_reply(req))
            },
            Some(ConnectionFault::HandlerPanic(vstd::utf8::decode_utf8(req.query))),
        ),
    }
}

/// What was reported, if anything was.
pub open spec fn reported(e: Option<ConnectionError>) -> Option<ConnectionFault> {
    match e {
        Some(error) => Some(error@),
        None => None,
    }
}

/// What is sent, and what is reported, when an off-reader run has ended. A
/// panic is answered like an error, and the connection goes on.
pub fn off_reader_reply(request: &Message, notify: bool, end: RunEnd) -> (r: (
    Option<Message>,
    Option<ConnectionError>,
))
    requires
        vstd::utf8::valid_utf8(request.query@),
    ensures
        match end {
            RunEnd::Returned(m) => r.0 == m && r.1 is None,
            RunEnd::Panicked => {
                &&& server_request::response(r.0) == if notify {
                    None
                } else {
                    Some(panicked_reply(request@))
                }
                &&& r.1 matches Some(e) && e@ == ConnectionFault::HandlerPanic(
                    vstd::utf8::decode_utf8(request.query@),
                )
            },
        },
        (server_request::response(r.0), reported(r.1)) == run_outcome(request@, notify, end),
{
    match end {
        RunEnd::Returned(m) => (m, None),
        RunEnd::Panicked => {
            let response = if notify {
                None
            } else {
                Some(
                    echo_query(
                        create_error_response_like(
                            request,
                            ErrorCode::InternalError,
                            "handler panicked",
                        ),
                        request.query.as_slice(),
                    ),
                )
            };
            (
                response,
                Some(ConnectionError::HandlerPanic { method: routed_path(request).to_owned() }),
            )
        },
    }
}

// ---- the writer ----

/// How far the writer of a connection is.
#[derive(Debug, Clone, Copy, PartialEq, Eq, Structural)]
pub enum WriterPhase {
    /// It sends what is queued, as it comes.
    Serving,
    /// It was told to stop, and sends what is still queued.
    Draining,
}

/// What happened to the writer of a connection.
pub enum WriterEvent {
    /// A message was taken from the queue.
    Queued(Message),
    /// Nothing is queued: while serving, nothing ever will be again.
    Empty,
    /// The connection is to stop.
    Stop,
    /// The message was sent.
    Sent,
    /// The message could not be sent.
    Failed(TransportFault),
    /// The message was not sent in the time that draining may take.
    DeadlinePassed,
}

/// What a [`WriterEvent`] says.
pub enum WriterEventModel {
    Queued(MessageModel),
    Empty,
    Stop,
    Sent,
    Failed(ErrorModel),
    DeadlinePassed,
}

impl View for WriterEvent {
    type V = WriterEventModel;

    open spec fn view(&self) -> WriterEventModel {
        match *self {
            WriterEvent::Queued(m) => WriterEventModel::Queued(m@),
            WriterEvent::Empty => WriterEventModel::Empty,
            WriterEvent::Stop => WriterEventModel::Stop,
            WriterEvent::Sent => WriterEventModel::Sent,
            WriterEvent::Failed(fault) => WriterEventModel::Failed(transport_error(fault)),
            WriterEvent::DeadlinePassed => WriterEventModel::DeadlinePassed,
        }
    }
}

/// What the writer of a connection does.
pub enum WriterAction {
    /// Wait for a message, or for the stop where none is queued.
    Wait,
    /// Take a message if one is queued, without waiting.
    Take,
    /// Send these bytes as one frame; while draining, until the deadline.
    Send(Vec<u8>),
    /// Send the close frame and end with this, whatever comes of the close.
    Close(Result<(), RepeError>),
}

/// What a [`WriterAction`] says.
pub enum WriterActionModel {
    Wait,
    Take,
    Send(Seq<u8>),
    Close(Result<(), ErrorModel>),
}

impl View for WriterAction {
    type V = WriterActionModel;

    open spec fn view(&self) -> WriterActionModel {
        match *self {
            WriterAction::Wait => WriterActionModel::Wait,
            WriterAction::Take => WriterActionModel::Take,
            WriterAction::Send(bytes) => WriterActionModel::Send(bytes@),
            WriterAction::Close(Ok(_)) => WriterActionModel::Close(Ok(())),
            WriterAction::Close(Err(e)) => WriterActionModel::Close(Err(e@)),
        }
    }
}

/// How the writer looks for a message.
pub open spec fn writer_looks(phase: WriterPhase) -> WriterActionModel {
    match phase {
        WriterPhase::Serving => WriterActionModel::Wait,
        WriterPhase::Draining => WriterActionModel::Take,
    }
}

/// What the writer does about an event. What is queued is sent, before the stop
/// and after it; the stop bounds how long that may take. A message that cannot
/// be sent ends the connection with an error; an empty queue and a deadline that
/// passes end it well. It never ends without the close frame.
pub open spec fn writer_next(phase: WriterPhase, event: WriterEventModel) -> (
    WriterPhase,
    WriterActionModel,
) {
    match event {
        WriterEventModel::Queued(m) => (
            phase,
            WriterActionModel::Send(message::frame_bytes(m.header, m.query, m.body)),
        ),
        WriterEventModel::Sent => (phase, writer_looks(phase)),
        WriterEventModel::Stop => (
            WriterPhase::Draining,
            writer_looks(WriterPhase::Draining),
        ),
        WriterEventModel::Failed(e) => (phase, WriterActionModel::Close(Err(e))),
        WriterEventModel::Empty => (phase, WriterActionModel::Close(Ok(()))),
        WriterEventModel::DeadlinePassed => (phase, WriterActionModel::Close(Ok(()))),
    }
}

/// Decides what the writer of a connection does about an event.
pub fn writer_step(phase: WriterPhase, event: WriterEvent) -> (r: (WriterPhase, WriterAction))
    ensures
        (r.0, r.1@) == writer_next(phase, event@),
{
    match event {
        WriterEvent::Queued(m) => (phase, WriterAction::Send(m.to_vec())),
        WriterEvent::Sent => match phase {
            WriterPhase::Serving => (phase, WriterAction::Wait),
            WriterPhase::Draining => (phase, WriterAction::Take),
        },
        WriterEvent::Stop => (WriterPhase::Draining, WriterAction::Take),
        WriterEvent::Failed(fault) => (
            phase,
            WriterAction::Close(Err(websocket_transport_error(fault))),
        ),
        WriterEvent::Empty => (phase, WriterAction::Close(Ok(()))),
        WriterEvent::DeadlinePassed => (phase, WriterAction::Close(Ok(()))),
    }
}

/// What the writer does about events that follow each other.
pub open spec fn writer_run(phase: WriterPhase, events: Seq<WriterEventModel>) -> Seq<
    WriterActionModel,
>
    decreases events.len(),
{
    if events.len() == 0 {
        Seq::empty()
    } else {
        let (next, action) = writer_next(phase, events[0]);
        seq![action] + writer_run(next, events.drop_first())
    }
}

/// What happens while `queue` is sent without a fault, up to the empty queue.
pub open spec fn sending(queue: Seq<MessageModel>) -> Seq<WriterEventModel>
    decreases queue.len(),
{
    if queue.len() == 0 {
        seq![WriterEventModel::Empty]
    } else {
        seq![WriterEventModel::Queued(queue[0]), WriterEventModel::Sent] + sending(
            queue.drop_first(),
        )
    }
}

/// The frames of `queue`, each of them sent before the next message is looked
/// for, and the close frame behind them.
pub open spec fn sent_and_closed(phase: WriterPhase, queue: Seq<MessageModel>) -> Seq<
    WriterActionModel,
>
    decreases queue.len(),
{
    if queue.len() == 0 {
        seq![WriterActionModel::Close(Ok(()))]
    } else {
        let m = queue[0];
        seq![
            WriterActionModel::Send(message::frame_bytes(m.header, m.query, m.body)),
            writer_looks(phase),
        ] + sent_and_closed(phase, queue.drop_first())
    }
}

/// Messages go out in the order in which they were queued, also those that a
/// stop finds in the queue, and the close frame comes behind all of them.
pub proof fn what_is_queued_is_sent_in_order(phase: WriterPhase, queue: Seq<MessageModel>)
    ensures
        writer_run(phase, sending(queue)) == sent_and_closed(phase, queue),
        writer_run(phase, seq![WriterEventModel::Stop] + sending(queue)) == seq![
            WriterActionModel::Take,
        ] + sent_and_closed(WriterPhase::Draining, queue),
{
    sending_runs(phase, queue);
    sending_runs(WriterPhase::Draining, queue);
    let stopped = seq![WriterEventModel::Stop] + sending(queue);
    assert(stopped.drop_first() =~= sending(queue));
}

proof fn sending_runs(phase: WriterPhase, queue: Seq<MessageModel>)
    ensures
        writer_run(phase, sending(queue)) == sent_and_closed(phase, queue),
    decreases queue.len(),
{
    let events = sending(queue);
    if queue.len() == 0 {
        assert(events.drop_first() =~= Seq::<WriterEventModel>::empty());
        assert(writer_run(phase, events.drop_first()) =~= Seq::<WriterActionModel>::empty());
        assert(writer_run(phase, events) =~= seq![WriterActionModel::Close(Ok(()))]);
    } else {
        let rest = queue.drop_first();
        sending_runs(phase, rest);
        let after = events.drop_first();
        assert(after[0] == WriterEventModel::Sent);
        assert(after.drop_first() =~= sending(rest));
        assert(writer_run(phase, after) == seq![writer_looks(phase)] + sent_and_closed(
            phase,
            rest,
        ));
        assert(writer_run(phase, events) =~= sent_and_closed(phase, queue));
    }
}

/// A writer ends well, or with the fault of the message that it could not send,
/// and it closes the connection either way. A stop alone does not end it.
pub proof fn a_writer_ends_by_closing(phase: WriterPhase, event: WriterEventModel)
    ensures
        writer_next(phase, event).1 is Close == (event is Failed || event is Empty || event
            is DeadlinePassed),
        writer_next(phase, event).1 matches WriterActionModel::Close(Err(e)) ==> event
            == WriterEventModel::Failed(e),
{
}

/// What a connection ends with.
pub open spec fn connection_end(
    reader: Result<(), RepeError>,
    writer: Result<(), RepeError>,
) -> Result<(), RepeError> {
    if reader is Err {
        reader
    } else {
        writer
    }
}

/// What a connection ends with: the reader's error, or else the writer's.
pub fn settle_connection(reader: Result<(), RepeError>, writer: Result<(), RepeError>) -> (r:
    Result<(), RepeError>)
    ensures
        r == match reader {
            Ok(_) => writer,
            Err(e) => Err(e),
        },
        r == connection_end(reader, writer),
{
    match reader {
        Ok(_) => writer,
        Err(e) => Err(e),
    }
}

/// The error for a writer that panicked.
pub fn writer_panic_error(reason: &str) -> (e: RepeError)
    ensures
        e@ == (ErrorModel::Io {
            kind: IoKind::Other,
            message: "websocket writer task panicked: "@ + reason@,
        }),
{
    RepeError::io(IoKind::Other, concat2("websocket writer task panicked: ", reason).as_str())
}

// ---- the server ----

/// A connect hook: a callback, or the entry of a peer in a registry.
pub enum ConnectHook<C, R> {
    Call(C),
    Insert(Arc<R>),
}

/// A disconnect hook: a callback, or the removal of a peer from a registry.
pub enum DisconnectHook<D, R> {
    Call(D),
    Remove(Arc<R>),
}

/// Where a server's peer ids come from.
pub enum IdSource<R> {
    /// A counter of its own, which starts at 0.
    Own,
    /// The counter of a registry, which other servers may share.
    Registry(Arc<R>),
}

/// How a server is configured.
#[verifier::ext_equal]
pub struct ServerModel<H, M, C, D, E, R> {
    pub router: RouterModel<H, M>,
    pub outbound_capacity: nat,
    pub offreader_limit: Option<usize>,
    pub ids: IdSource<R>,
    pub on_connect: Seq<ConnectHook<C, R>>,
    pub on_disconnect: Seq<DisconnectHook<D, R>>,
    pub on_error: Seq<E>,
}

/// A server under configuration. `C`, `D` and `E` are what the embedder calls
/// when a peer connects, when it disconnects, and on an error; `R` is its peer
/// registry.
pub struct WebSocketServer<H, M, C, D, E, R> {
    router: Router<H, M>,
    outbound_capacity: usize,
    offreader_limit: Option<usize>,
    ids: IdSource<R>,
    on_connect: Vec<ConnectHook<C, R>>,
    on_disconnect: Vec<DisconnectHook<D, R>>,
    on_error: Vec<E>,
}

impl<H, M, C, D, E, R> View for WebSocketServer<H, M, C, D, E, R> {
    type V = ServerModel<H, M, C, D, E, R>;

    closed spec fn view(&self) -> ServerModel<H, M, C, D, E, R> {
        ServerModel {
            router: self.router@,
            outbound_capacity: self.outbound_capacity as nat,
            offreader_limit: self.offreader_limit,
            ids: self.ids,
            on_connect: self.on_connect@,
            on_disconnect: self.on_disconnect@,
            on_error: self.on_error@,
        }
    }
}

impl<H, M, C, D, E, R> WebSocketServer<H, M, C, D, E, R> {
    /// The router is sound, and there is room for a message to be sent.
    pub closed spec fn wf(self) -> bool {
        &&& self.router.wf()
        &&& self@.outbound_capacity >= 1
        &&& self@.offreader_limit != Some(0usize)
    }

    /// A server of `router`.
    pub fn new(router: Router<H, M>) -> (s: WebSocketServer<H, M, C, D, E, R>)
        requires
            router.wf(),
        ensures
            s.wf(),
            s@ == (ServerModel {
                router: router@,
                outbound_capacity: DEFAULT_OUTBOUND_CAPACITY as nat,
                offreader_limit: Some(DEFAULT_OFFREADER_LIMIT),
                ids: IdSource::<R>::Own,
                on_connect: Seq::<ConnectHook<C, R>>::empty(),
                on_disconnect: Seq::<DisconnectHook<D, R>>::empty(),
                on_error: Seq::<E>::empty(),
            }),
    {
        WebSocketServer {
            router,
            outbound_capacity: DEFAULT_OUTBOUND_CAPACITY,
            offreader_limit: Some(DEFAULT_OFFREADER_LIMIT),
            ids: IdSource::Own,
            on_connect: Vec::new(),
            on_disconnect: Vec::new(),
            on_error: Vec::new(),
        }
    }

    /// Sets how many messages may wait to be sent on a connection.
    pub fn with_outbound_capacity(self, capacity: usize) -> (s: Self)
        requires
            self.wf(),
            capacity >= 1,
        ensures
            s.wf(),
            s@ == (ServerModel { outbound_capacity: capacity as nat, ..self@ }),
    {
        WebSocketServer { outbound_capacity: capacity, ..self }
    }

    /// Sets how many off-reader handlers may run at once on a connection; 0 is
    /// no limit.
    pub fn with_offreader_limit(self, limit: usize) -> (s: Self)
        requires
            self.wf(),
        ensures
            s.wf(),
            s@ == (ServerModel {
                offreader_limit: if limit > 0 {
                    Some(limit)
                } else {
                    None
                },
                ..self@
            }),
    {
        let offreader_limit = if limit > 0 {
            Some(limit)
        } else {
            None
        };
        WebSocketServer { offreader_limit, ..self }
    }

    /// Enters every peer in `registry` when it connects and removes it when it
    /// disconnects. Peer ids come from the registry from now on.
    pub fn with_peer_registry(self, registry: Arc<R>) -> (s: Self)
        requires
            self.wf(),
        ensures
            s.wf(),
            s@ == (ServerModel {
                ids: IdSource::Registry(registry),
                on_connect: self@.on_connect.push(ConnectHook::Insert(registry)),
                on_disconnect: self@.on_disconnect.push(DisconnectHook::Remove(registry)),
                ..self@
            }),
    {
        let mut s = self;
        s.ids = IdSource::Registry(registry.clone());
        s.on_connect.push(ConnectHook::Insert(registry.clone()));
        s.on_disconnect.push(DisconnectHook::Remove(registry));
        s
    }

    /// Adds a callback for every peer that connects.
    pub fn on_peer_connect(self, f: C) -> (s: Self)
        requires
            self.wf(),
        ensures
            s.wf(),
            s@ == (ServerModel {
                on_connect: self@.on_connect.push(ConnectHook::Call(f)),
                ..self@
            }),
    {
        let mut s = self;
        s.on_connect.push(ConnectHook::Call(f));
        s
    }

    /// Adds a callback for every peer that disconnects.
    pub fn on_peer_disconnect(self, f: D) -> (s: Self)
        requires
            self.wf(),
        ensures
            s.wf(),
            s@ == (ServerModel {
                on_disconnect: self@.on_disconnect.push(DisconnectHook::Call(f)),
                ..self@
            }),
    {
        let mut s = self;
        s.on_disconnect.push(DisconnectHook::Call(f));
        s
    }

    /// Adds a callback for every error. With one, nothing goes to the standard
    /// error stream any more.
    pub fn on_error(self, f: E) -> (s: Self)
        requires
            self.wf(),
        ensures
            s.wf(),
            s@ == (ServerModel { on_error: self@.on_error.push(f), ..self@ }),
    {
        let mut s = self;
        s.on_error.push(f);
        s
    }

    /// The configured server, ready to be shared by connections.
    pub fn into_shared(self) -> (s: SharedWebSocketServer<H, M, C, D, E, R>)
        requires
            self.wf(),
        ensures
            s.wf(),
            s@ == self@,
    {
        SharedWebSocketServer { config: Arc::new(self) }
    }
}

/// A handle to a configured server.
pub struct SharedWebSocketServer<H, M, C, D, E, R> {
    config: Arc<WebSocketServer<H, M, C, D, E, R>>,
}

impl<H, M, C, D, E, R> View for SharedWebSocketServer<H, M, C, D, E, R> {
    type V = ServerModel<H, M, C, D, E, R>;

    closed spec fn view(&self) -> ServerModel<H, M, C, D, E, R> {
        self.config@
    }
}

impl<H, M, C, D, E, R> SharedWebSocketServer<H, M, C, D, E, R> {
    pub closed spec fn wf(self) -> bool {
        self.config.wf()
    }

    /// Another handle to the same server.
    pub fn share(&self) -> (s: Self)
        requires
            self.wf(),
        ensures
            s.wf(),
            s@ == self@,
    {
        SharedWebSocketServer { config: self.config.clone() }
    }

    pub fn router(&self) -> (r: &Router<H, M>)
        requires
            self.wf(),
        ensures
            r.wf(),
            r@ == self@.router,
    {
        &self.config.router
    }

    /// How many messages may wait to be sent on a connection.
    pub fn outbound_capacity(&self) -> (n: usize)
        requires
            self.wf(),
        ensures
            n == self@.outbound_capacity,
            n >= 1,
    {
        self.config.outbound_capacity
    }

    /// The off-reader slots of a new connection.
    pub fn offreader_slots(&self) -> (s: OffReaderSlots)
        requires
            self.wf(),
        ensures
            s@.wf(),
            match self@.offreader_limit {
                Some(n) => s@ == (SlotsModel { limit: Some(n as nat), free: n as nat }),
                None => s@ == (SlotsModel { limit: None, free: 0 }),
            },
            !s@.full(),
    {
        OffReaderSlots::new(self.config.offreader_limit)
    }

    /// Where peer ids come from.
    pub fn ids(&self) -> (s: &IdSource<R>)
        ensures
            *s == self@.ids,
    {
        &self.config.ids
    }

    /// What is done when a peer connects, in this order.
    pub fn connect_hooks(&self) -> (r: &Vec<ConnectHook<C, R>>)
        ensures
            r@ == self@.on_connect,
    {
        &self.config.on_connect
    }

    /// What is done when a peer disconnects, in this order.
    pub fn disconnect_hooks(&self) -> (r: &Vec<DisconnectHook<D, R>>)
        ensures
            r@ == self@.on_disconnect,
    {
        &self.config.on_disconnect
    }

    /// What is called on an error, in this order.
    pub fn error_hooks(&self) -> (r: &Vec<E>)
        ensures
            r@ == self@.on_error,
    {
        &self.config.on_error
    }
}

// ---- peers ----

/// A counter that peer ids are taken from.
pub struct PeerIds {
    next: u64,
}

/// The id behind `id`.
pub open spec fn next_id(id: u64) -> u64 {
    if id == u64::MAX {
        0
    } else {
        (id + 1) as u64
    }
}

impl PeerIds {
    pub closed spec fn spec_next(self) -> u64 {
        self.next
    }

    /// A counter that starts at 0.
    pub fn new() -> (ids: PeerIds)
        ensures
            ids.spec_next() == 0,
    {
        PeerIds { next: 0 }
    }

    /// Takes an id. The counter wraps.
    pub fn allocate(&mut self) -> (id: PeerId)
        ensures
            id.0 == old(self).spec_next(),
            final(self).spec_next() == next_id(old(self).spec_next()),
    {
        let id: u64 = self.next;
        self.next = id.wrapping_add(1);
        PeerId(id)
    }
}

/// Why a notify could not be queued for a peer.
#[derive(Debug, Clone, Copy, PartialEq, Eq, Structural)]
pub enum PeerSendError {
    /// Too many messages wait already.
    Full,
    /// The peer is gone.
    Disconnected,
}

/// The message that a notify is pushed as: id 0, the method as its path.
pub open spec fn pushed_notify(method: Seq<char>, format: BodyFormat, body: Seq<u8>) -> MessageModel {
    MessageModel {
        header: Header {
            id: 0,
            notify: 1,
            query_format: QueryFormat::JsonPointer.wire(),
            body_format: format.wire(),
            ..Header::blank()
        },
        query: vstd::utf8::encode_utf8(method),
        body,
    }.stamped()
}

/// The message that a notify is pushed as.
pub fn notify_message(method: &str, format: BodyFormat, body: Vec<u8>) -> (m: Message)
    ensures
        m@ == pushed_notify(method@, format, body@),
{
    Message::builder().id(0).notify(true).query_str(method).query_format(
        QueryFormat::JsonPointer,
    ).body_format_code(format.code()).body_bytes(body).build()
}

// ---- paths ----

/// The path that an endpoint is served under, for a path as it is configured.
pub open spec fn endpoint(configured: Seq<char>) -> Seq<char> {
    if configured.len() == 0 || configured == "/"@ {
        "/"@
    } else if configured[0] == '/' {
        path::trimmed(configured)
    } else {
        "/"@ + path::trimmed(configured)
    }
}

/// The path that an endpoint is served under.
pub fn normalize_path(configured: &str) -> (s: String)
    ensures
        s@ == endpoint(configured@),
{
    if configured.is_empty() || text_equal(configured, "/") {
        "/".to_owned()
    } else if starts_with_slash(configured) {
        trim_end_slashes(configured).to_owned()
    } else {
        concat2("/", trim_end_slashes(configured))
    }
}

/// What a client is told that does not ask for the expected path.
pub open spec fn path_refusal(expected: Seq<char>, requested: Seq<char>) -> Option<Seq<char>> {
    if requested == expected {
        None
    } else {
        Some("REPE websocket endpoint not found: "@ + requested)
    }
}

/// Lets a client through that asks for the expected path, and says to any other
/// what it asked for.
pub fn validate_path(expected: &str, requested: &str) -> (r: Result<(), String>)
    ensures
        match r {
            Ok(_) => requested@ == expected@,
            Err(text) => requested@ != expected@ && text@ == "REPE websocket endpoint not found: "@
                + requested@,
        },
        match r {
            Ok(_) => path_refusal(expected@, requested@) is None,
            Err(text) => path_refusal(expected@, requested@) == Some(text@),
        },
{
    if text_equal(requested, expected) {
        Ok(())
    } else {
        Err(concat2("REPE websocket endpoint not found: ", requested))
    }
}

// ---- laws ----

/// However many handlers come and go, no more run at once than the limit
/// allows.
pub proof fn the_limit_is_kept(slots: SlotsModel)
    requires
        slots.wf(),
    ensures
        slots.limit matches Some(n) ==> slots.running() <= n,
        !slots.full() ==> slots.taken().wf() && slots.taken().released() == slots,
        slots.limit is Some && !slots.full() ==> slots.taken().running() == slots.running() + 1,
        slots.limit is Some && slots.running() > 0 ==> slots.released().wf() && !slots.released().full(),
{
}

/// A request that finds no free slot is answered at once and takes none; it is
/// not run later.
pub proof fn a_saturated_request_is_turned_away<H: HandlerErased, M: Middleware<Composed<H>>>(
    router: RouterModel<H, M>,
    peer: PeerHandle,
    frame: FrameModel,
    before: SlotsModel,
    after: SlotsModel,
    step: StepModel<H, M>,
)
    requires
        stepped(router, peer, frame, before, after, step),
        before.full(),
    ensures
        after == before,
        step !is Spawn,
        step matches StepModel::Saturated { error, response } ==> error.error_code() == Some(
            ErrorCode::ResourceExhausted,
        ) && (response matches Some(m) ==> m.header.ec == ErrorCode::ResourceExhausted.wire()),
{
}

/// A full connection still serves what runs inline: the slots bound off-reader
/// handlers alone.
pub proof fn inline_requests_need_no_slot<H: HandlerErased, M: Middleware<Composed<H>>>(
    router: RouterModel<H, M>,
    peer: PeerHandle,
    req: MessageModel,
    payload: Seq<u8>,
    before: SlotsModel,
    after: SlotsModel,
    step: StepModel<H, M>,
    handler: DispatchModel<H, M>,
    path: Seq<char>,
)
    requires
        message::parse_exact(payload) == Ok::<MessageModel, ErrorModel>(req),
        server_request::verdict(router, req.header, req.query) == (Verdict::<H, M>::Dispatch {
            handler,
            path,
        }),
        handler.runs() == Execution::Inline,
        stepped(router, peer, FrameModel::Binary(payload), before, after, step),
    ensures
        step is Continue || step is Reply,
        (step is Continue) == server_request::is_notify(req.header),
{
}

/// Only a close frame or a frame that cannot be read stops the reader. No
/// request does, whatever its handler answers.
pub proof fn a_request_never_stops_the_reader<H: HandlerErased, M: Middleware<Composed<H>>>(
    router: RouterModel<H, M>,
    peer: PeerHandle,
    frame: FrameModel,
    before: SlotsModel,
    after: SlotsModel,
    step: StepModel<H, M>,
)
    requires
        stepped(router, peer, frame, before, after, step),
    ensures
        (step is Close) == (frame is Close),
        (step is Fail) == (frame_action(frame) is Err),
{
}

/// A notify is never answered, on whichever path it is handled.
pub proof fn a_notify_gets_no_reply<H: HandlerErased, M: Middleware<Composed<H>>>(
    router: RouterModel<H, M>,
    peer: PeerHandle,
    req: MessageModel,
    payload: Seq<u8>,
    before: SlotsModel,
    after: SlotsModel,
    step: StepModel<H, M>,
)
    requires
        message::parse_exact(payload) == Ok::<MessageModel, ErrorModel>(req),
        server_request::is_notify(req.header),
        stepped(router, peer, FrameModel::Binary(payload), before, after, step),
    ensures
        step !is Reply,
        step matches StepModel::Saturated { response, .. } ==> response is None,
        step matches StepModel::Spawn { notify, .. } ==> notify,
{
}

/// A notify whose handler runs inline is carried out before the next frame is
/// read; one whose handler does not, and finds a free slot, is handed over to be
/// run.
pub proof fn a_notify_is_carried_out<H: HandlerErased, M: Middleware<Composed<H>>>(
    router: RouterModel<H, M>,
    peer: PeerHandle,
    req: MessageModel,
    payload: Seq<u8>,
    before: SlotsModel,
    after: SlotsModel,
    step: StepModel<H, M>,
    handler: DispatchModel<H, M>,
    path: Seq<char>,
)
    requires
        message::parse_exact(payload) == Ok::<MessageModel, ErrorModel>(req),
        server_request::is_notify(req.header),
        server_request::verdict(router, req.header, req.query) == (Verdict::<H, M>::Dispatch {
            handler,
            path,
        }),
        stepped(router, peer, FrameModel::Binary(payload), before, after, step),
    ensures
        handler.runs() == Execution::Inline ==> carried_out(
            handler,
            req,
            CtxModel { method: path, peer: Some(peer) },
        ),
        handler.runs() == Execution::OffReader && !before.full() ==> step == (StepModel::<
            H,
            M,
        >::Spawn { handler, request: req, notify: true }),
{
}

/// Every response carries the id of its request, also when the handler panicked
/// or no slot was free.
pub proof fn failures_are_answered_under_the_request_id(req: MessageModel)
    ensures
        saturated_reply(req).header.id == req.header.id,
        panicked_reply(req).header.id == req.header.id,
        saturated_reply(req).query == req.query,
        panicked_reply(req).query == req.query,
        panicked_reply(req).header.ec == ErrorCode::InternalError.wire(),
        saturated_reply(req).header.ec == ErrorCode::ResourceExhausted.wire(),
{
}

/// The id that is taken after `n` others, from a counter at `start`.
pub open spec fn nth_id(start: u64, n: nat) -> u64
    decreases n,
{
    if n == 0 {
        start
    } else {
        next_id(nth_id(start, (n - 1) as nat))
    }
}

proof fn nth_id_value(start: u64, n: nat)
    requires
        n <= u64::MAX,
    ensures
        nth_id(start, n) == if start + n <= u64::MAX {
            start + n
        } else {
            start + n - u64::MAX - 1
        },
    decreases n,
{
    if n > 0 {
        nth_id_value(start, (n - 1) as nat);
    }
}

/// Ids taken from one counter differ, also when several servers share it, until
/// it has gone all the way round.
pub proof fn peer_ids_are_distinct(start: u64, i: nat, j: nat)
    requires
        i < j,
        j - i <= u64::MAX,
    ensures
        nth_id(start, i) != nth_id(start, j),
{
    let from = nth_id(start, i);
    nth_id_chain(start, i, (j - i) as nat);
    nth_id_value(from, (j - i) as nat);
}

proof fn nth_id_chain(start: u64, i: nat, n: nat)
    ensures
        nth_id(start, i + n) == nth_id(nth_id(start, i), n),
    decreases n,
{
    if n > 0 {
        nth_id_chain(start, i, (n - 1) as nat);
    }
}

/// What is left of a path that is trimmed does not end with `/`.
proof fn trimmed_is_done(s: Seq<char>)
    ensures
        path::trimmed(path::trimmed(s)) == path::trimmed(s),
        path::trimmed(s).len() <= s.len(),
        path::trimmed(s).len() > 0 ==> path::trimmed(s).last() != '/' && path::trimmed(s)[0] == s[0],
    decreases s.len(),
{
    if s.len() > 0 && s.last() == '/' {
        trimmed_is_done(s.drop_last());
    }
}

/// A path that an endpoint is served under stays as it is when it is configured
/// again. (Two or more `/` and nothing else leave an empty path, which is then
/// taken for the root.)
pub proof fn an_endpoint_is_settled(configured: Seq<char>)
    requires
        configured.len() <= 1 || path::trimmed(configured).len() > 0,
    ensures
        endpoint(endpoint(configured)) == endpoint(configured),
        endpoint(configured)[0] == '/',
        endpoint(configured) == "/"@ || endpoint(configured).last() != '/',
{
    reveal_strlit("/");
    trimmed_is_done(configured);
    let e = endpoint(configured);
    if configured.len() == 0 || configured == "/"@ {
    } else if configured[0] == '/' {
        if configured.len() == 1 {
            assert(configured =~= "/"@);
        }
    } else {
        let t = path::trimmed(configured);
        if t.len() == 0 {
            assert(configured.len() == 1);
            assert(configured.last() == configured[0]);
        }
        assert(e == "/"@ + t);
        assert(e.last() == t.last());
        assert(path::trimmed(e) == e);
    }
}

/// A binary frame that holds one message is that message, whatever its header
/// says; a close frame ends the connection, other control frames mean nothing, and
/// text and bytes that are no message are errors.
pub proof fn a_frame_means_what_it_holds(frame: FrameModel)
    ensures
        frame matches FrameModel::Binary(payload) ==> match message::parse_exact(payload) {
            Ok(m) => frame_action(frame) == Ok::<ActionModel, ErrorModel>(ActionModel::Message(m)),
            Err(e) => frame_action(frame) == Err::<ActionModel, ErrorModel>(e),
        },
        frame is Ping || frame is Pong || frame is Raw <==> frame_action(frame) == Ok::<
            ActionModel,
            ErrorModel,
        >(ActionModel::Continue),
        frame is Close <==> frame_action(frame) == Ok::<ActionModel, ErrorModel>(
            ActionModel::Close,
        ),
        frame is Text ==> (frame_action(frame) matches Err(ErrorModel::Io { kind, .. }) && kind
            == IoKind::InvalidData),
{
}

/// Every request that is not a notify gets a reply: what its handler answered, on
/// the spot or, with a slot taken for it, off the reader; why it was refused; or
/// that the connection is full. What the reader says itself carries the id and
/// the query of the request.
pub proof fn every_request_gets_a_reply<H: HandlerErased, M: Middleware<Composed<H>>>(
    router: RouterModel<H, M>,
    peer: PeerHandle,
    req: MessageModel,
    payload: Seq<u8>,
    before: SlotsModel,
    after: SlotsModel,
    step: StepModel<H, M>,
)
    requires
        message::parse_exact(payload) == Ok::<MessageModel, ErrorModel>(req),
        req.header.notify != 1,
        stepped(router, peer, FrameModel::Binary(payload), before, after, step),
    ensures
        match server_request::verdict(router, req.header, req.query) {
            Verdict::Reject { code, text } => {
                &&& after == before
                &&& step matches StepModel::Reply(m)
                &&& m.header.id == req.header.id
                &&& m.header.ec == code.wire()
                &&& m.body == vstd::utf8::encode_utf8(text)
                &&& m.query == req.query
            },
            Verdict::Dispatch { handler, path } => if handler.runs() == Execution::Inline {
                &&& after == before
                &&& step matches StepModel::Reply(m)
                &&& exists|out: Outcome| #[trigger]
                    handler.answers(
                        req,
                        Some(CtxModel { method: path, peer: Some(peer) }),
                        out,
                    ) && m.body == server_request::settled(req.header, out).body && m.header.ec
                        == server_request::settled(req.header, out).header.ec && m.header.id
                        == server_request::settled(req.header, out).header.id
            } else if before.limit is Some && before.free == 0 {
                &&& after == before
                &&& step matches StepModel::Saturated { error, response }
                &&& error == ConnectionFault::Saturation(path)
                &&& response matches Some(m)
                &&& m.header.id == req.header.id
                &&& m.header.ec == ErrorCode::ResourceExhausted.wire()
            } else {
                &&& step matches StepModel::Spawn { handler: spawned, request, notify }
                &&& spawned == handler
                &&& request == req
                &&& !notify
                &&& before.limit is Some ==> after.free == before.free - 1
                &&& after.limit == before.limit
            },
        },
{
    if let Verdict::Dispatch { handler, path } = server_request::verdict(
        router,
        req.header,
        req.query,
    ) {
        if handler.runs() == Execution::Inline {
            if let StepModel::Reply(m) = step {
                let ctx = CtxModel { method: path, peer: Some(peer) };
                let out = choose|out: Outcome| #[trigger]
                    handler.answers(req, Some(ctx), out) && m == server_request::echoed(
                        server_request::settled(req.header, out),
                        req.query,
                    );
                assert(handler.answers(req, Some(ctx), out));
            }
        }
    }
}

/// What a peer is pushed is read as a notify of the method, with the body as it
/// is, in the format that was named.
pub proof fn a_pushed_notify_is_read_as_one(method: Seq<char>, format: BodyFormat, body: Seq<u8>)
    requires
        48 + vstd::utf8::encode_utf8(method).len() + body.len() <= u64::MAX,
    ensures
        ({
            let pushed = pushed_notify(method, format, body);
            message::parse_exact(message::frame_bytes(pushed.header, pushed.query, pushed.body))
                matches Ok(m) && {
                &&& m.header.notify == 1
                &&& m.header.id == 0
                &&& m.header.version == 1
                &&& m.header.ec == 0
                &&& m.header.query_format == 1
                &&& m.header.body_format == format.wire()
                &&& vstd::utf8::decode_utf8(m.query) == method
                &&& m.body == body
            }
        }),
{
    let pushed = pushed_notify(method, format, body);
    let b = message::frame_bytes(pushed.header, pushed.query, pushed.body);
    assert(b + Seq::<u8>::empty() =~= b);
    message::frame_round_trip(pushed.header, pushed.query, pushed.body, Seq::empty());
    vstd::utf8::encode_utf8_decode_utf8(method);
}

/// A fault of the transport is reported as what it is: an error of the socket as
/// it came, a closed connection as aborted, and anything else in its words.
pub proof fn a_transport_fault_is_reported_as_it_came(fault: TransportFault)
    ensures
        fault matches TransportFault::Io(e) ==> transport_error(fault) == (ErrorModel::Io {
            kind: e.kind,
            message: e.message@,
        }),
        fault is Closed ==> (transport_error(fault) matches ErrorModel::Io { kind, .. } && kind
            == IoKind::ConnectionAborted),
        fault matches TransportFault::Other(text) ==> transport_error(fault) == (ErrorModel::Io {
            kind: IoKind::Other,
            message: text@,
        }),
{
}

/// A fault of a connection reaches the client under a code exactly where a request
/// can still be answered: a panic as an internal error, a full connection as
/// exhausted.
pub proof fn a_connection_fault_has_the_code_of_its_cause(fault: ConnectionFault)
    ensures
        fault is HandlerPanic <==> fault.error_code() == Some(ErrorCode::InternalError),
        fault is Saturation <==> fault.error_code() == Some(ErrorCode::ResourceExhausted),
        fault is Handshake || fault is Connection <==> fault.error_code() is None,
{
}

/// An endpoint is served under its path with one leading `/` and none at the end.
pub proof fn an_endpoint_is_its_path_without_trailing_slashes(configured: Seq<char>)
    requires
        configured.len() > 0,
        configured.last() != '/',
    ensures
        configured[0] == '/' ==> endpoint(configured) == configured,
        configured[0] != '/' ==> endpoint(configured) == seq!['/'] + configured,
        configured[0] == '/' ==> endpoint(configured.push('/')) == configured,
        endpoint("/"@) == "/"@,
        endpoint(Seq::empty()) == "/"@,
{
    reveal_strlit("/");
    assert("/"@ =~= seq!['/']);
    assert(path::trimmed(configured) == configured);
    assert(configured.push('/').drop_last() =~= configured);
    assert(path::trimmed(configured.push('/')) == path::trimmed(configured));
    assert(configured != "/"@) by {
        assert("/"@.last() == '/');
    }
    assert(configured.push('/').len() >= 2);
}

/// Ids are handed out one after the other, and start over when they run out.
pub proof fn ids_follow_each_other(id: u64)
    ensures
        id < u64::MAX ==> next_id(id) == id + 1,
        next_id(u64::MAX) == 0,
{
}

/// A slot that is taken is one less that is free, and one that is given back is
/// one more; without a limit nothing is counted and nobody is turned away.
pub proof fn slots_are_counted(slots: SlotsModel)
    requires
        slots.wf(),
    ensures
        slots.full() <==> slots.limit is Some && slots.free == 0,
        slots.limit is Some && slots.free > 0 ==> slots.taken().free == slots.free - 1,
        slots.limit is Some ==> slots.released().free == slots.free + 1,
        slots.taken().limit == slots.limit && slots.released().limit == slots.limit,
        slots.limit is None ==> slots.taken() == slots && slots.released() == slots
            && !slots.full(),
{
}

/// A writer waits for messages while it serves, and looks without waiting once it
/// was told to stop.
pub proof fn a_stopped_writer_waits_no_longer(phase: WriterPhase)
    ensures
        writer_next(WriterPhase::Serving, WriterEventModel::Sent) == (
            WriterPhase::Serving,
            WriterActionModel::Wait,
        ),
        writer_next(WriterPhase::Draining, WriterEventModel::Sent) == (
            WriterPhase::Draining,
            WriterActionModel::Take,
        ),
        writer_next(phase, WriterEventModel::Stop) == (
            WriterPhase::Draining,
            WriterActionModel::Take,
        ),
{
}

/// What an off-reader handler returned is sent as it is; a handler that panicked is
/// answered for, unless nobody waits for an answer, and is reported in any case.
pub proof fn an_off_reader_run_is_answered(req: MessageModel, notify: bool, end: RunEnd)
    ensures
        end matches RunEnd::Returned(m) ==> run_outcome(req, notify, end).0
            == server_request::response(m) && run_outcome(req, notify, end).1 is None,
        end is Panicked && notify ==> run_outcome(req, notify, end).0 is None,
        end is Panicked && !notify ==> (run_outcome(req, notify, end).0 matches Some(m)
            && m.header.id == req.header.id && m.header.ec == ErrorCode::InternalError.wire()
            && m.query == req.query),
        end is Panicked ==> run_outcome(req, notify, end).1 == Some(
            ConnectionFault::HandlerPanic(vstd::utf8::decode_utf8(req.query)),
        ),
{
}

/// A client is let through exactly where it asks for the path that is served.
pub proof fn only_the_served_path_is_let_through(expected: Seq<char>, requested: Seq<char>)
    ensures
        path_refusal(expected, requested) is None <==> requested == expected,
{
}

/// A connection ends well where both of its halves do, and otherwise with what
/// ended the reader, or else the writer.
pub proof fn a_connection_ends_with_what_ended_it(
    reader: Result<(), RepeError>,
    writer: Result<(), RepeError>,
)
    ensures
        connection_end(reader, writer) is Ok <==> reader is Ok && writer is Ok,
        reader matches Err(e) ==> connection_end(reader, writer) == Err::<(), RepeError>(e),
        reader is Ok ==> (writer matches Err(e) ==> connection_end(reader, writer) == Err::<
            (),
            RepeError,
        >(e)),
{
}

} // verus!
