//! WebSocket servers and clients.

use repe::constants::{BodyFormat, ErrorCode, QueryFormat, TypedFormat};
use repe::error::{IoError, IoKind, RepeError};
use repe::handler::{Execution, JsonHandler, Middleware, Next, HandlerErased};
use repe::message::Message;
use repe::peer::{CallContext, PeerHandle, PeerId};
use repe::server::{Composed, Router};
use repe::wasm_client::{
    decode_message_event, handle_message, settle_open, timer_delay, EventAction, OpenSignal,
};
use repe::websocket_client::{
    batch_worker_join_error, begin_call, begin_notify, clone_fatal_error_for_waiter, collect_batch,
    decode_typed_response, message_with_formats, message_with_value, response_format,
    response_step, settle_call, unrecognized_text, validate_response, websocket_connect_error,
    AlreadySubscribed, LoopAction, NotifySlot, PendingRequests, ReadEvent, Received, RequestIds,
};
use repe::websocket_server::{
    decode_request_frame, normalize_path, notify_message, off_reader_reply, reader_step,
    report_error, report_step, run_handler, settle_connection, validate_path,
    websocket_transport_error, writer_panic_error, writer_step, ConnectHook, ConnectionError,
    DisconnectHook, FrameAction, IdSource, Inbound, OffReaderSlots, PeerIds, ReaderStep, ReportStep,
    RunEnd, TransportFault, WebSocketServer, WriterAction, WriterEvent, WriterPhase,
};
use serde_json::Value;
use std::sync::atomic::{AtomicUsize, Ordering};
use std::sync::{Arc, Mutex};

// ---- a router of functions that may block ----

struct Function {
    f: fn(Value) -> Result<Value, (ErrorCode, String)>,
    off_reader: bool,
}

impl HandlerErased for Function {
    fn handle(&self, req: &Message) -> Result<Message, RepeError> {
        JsonHandler::new(self.f).handle(req)
    }
    fn handle_with_ctx(&self, req: &Message, ctx: &CallContext<'_>) -> Result<Message, RepeError> {
        assert_eq!(ctx.peer().map(|p| p.peer_id()), Some(PeerId(3)));
        self.handle(req)
    }
    fn execution(&self) -> Execution {
        if self.off_reader {
            Execution::OffReader
        } else {
            Execution::Inline
        }
    }
}

struct NoStage;

impl Middleware<Composed<Function>> for NoStage {
    fn handle(
        &self,
        req: &Message,
        next: Next<'_, Composed<Function>, NoStage>,
    ) -> Result<Message, RepeError> {
        next.run(req)
    }
}

type Routes = Router<Function, NoStage>;

fn routes() -> Routes {
    let echo = Function { f: |v| Ok(v), off_reader: false };
    let slow = Function { f: |v| Ok(v), off_reader: true };
    Routes::new()
        .with_erased_handler("/echo", Arc::new(echo))
        .with_erased_handler("/slow", Arc::new(slow))
}

fn frame(id: u64, path: &str, notify: bool) -> Inbound {
    let m = message_with_value(id, notify, path, &Value::from(5), BodyFormat::Json).unwrap();
    Inbound::Binary(m.to_vec())
}

fn peer() -> PeerHandle {
    PeerHandle::new(PeerId(3))
}

#[test]
fn connection_error_maps_to_wire_code() {
    assert_eq!(
        ConnectionError::HandlerPanic {
            method: "/x".into()
        }
        .error_code(),
        Some(ErrorCode::InternalError)
    );
    assert_eq!(
        ConnectionError::Saturation {
            method: "/x".into()
        }
        .error_code(),
        Some(ErrorCode::ResourceExhausted)
    );
    assert_eq!(
        ConnectionError::Connection(RepeError::ReservedNonZero).error_code(),
        None
    );
    assert_eq!(
        ConnectionError::Handshake(RepeError::ReservedNonZero).error_code(),
        None
    );
}

#[test]
fn connection_errors_speak() {
    let texts: Vec<String> = [
        ConnectionError::Handshake(RepeError::ReservedNonZero),
        ConnectionError::Connection(RepeError::ReservedNonZero),
        ConnectionError::HandlerPanic { method: "/x".into() },
        ConnectionError::Saturation { method: "/x".into() },
    ]
    .iter()
    .map(|e| e.text())
    .collect();
    assert_eq!(
        texts,
        vec![
            "websocket handshake error: reserved field must be zero",
            "websocket connection error: reserved field must be zero",
            "off-reader handler panicked for /x; connection kept alive",
            "off-reader dispatch limit reached for /x; retry",
        ]
    );
    assert!(ConnectionError::Handshake(RepeError::ReservedNonZero).source().is_some());
    assert!(ConnectionError::Saturation { method: "/x".into() }.source().is_none());
}

#[test]
fn errors_go_to_the_hooks_or_to_stderr() {
    let none: Vec<fn(&ConnectionError)> = Vec::new();
    let panic = ConnectionError::HandlerPanic { method: "/x".into() };
    let full = ConnectionError::Saturation { method: "/x".into() };
    assert_eq!(report_error(&none, &full), None);
    assert_eq!(
        report_error(&none, &panic).expect("a panic is logged"),
        "[repe] off-reader handler panicked for /x; connection kept alive"
    );

    let heard: Arc<Mutex<Vec<(usize, String)>>> = Arc::new(Mutex::new(Vec::new()));
    let hooks: Vec<Box<dyn Fn(&ConnectionError)>> = (0..3)
        .map(|i| {
            let heard = Arc::clone(&heard);
            let hook: Box<dyn Fn(&ConnectionError)> =
                Box::new(move |e| heard.lock().unwrap().push((i, e.text())));
            hook
        })
        .collect();
    assert_eq!(report_error(&hooks, &panic), None);
    assert_eq!(
        *heard.lock().unwrap(),
        vec![(0, panic.text()), (1, panic.text()), (2, panic.text())]
    );
    assert!(matches!(report_step(&hooks, &full, 1), ReportStep::Call(1)));
    assert!(matches!(report_step(&hooks, &full, 3), ReportStep::Done));
}

#[test]
fn a_writer_sends_what_is_queued_and_closes() {
    let message = || notify_message("/m", BodyFormat::RawBinary, vec![1, 2]);
    let serving = WriterPhase::Serving;
    let draining = WriterPhase::Draining;
    for phase in [serving, draining] {
        match writer_step(phase, WriterEvent::Queued(message())) {
            (next, WriterAction::Send(bytes)) => {
                assert_eq!(next, phase);
                assert_eq!(bytes, message().to_vec());
            }
            _ => panic!("a queued message is sent"),
        }
        for event in [WriterEvent::Empty, WriterEvent::DeadlinePassed] {
            assert!(matches!(writer_step(phase, event), (_, WriterAction::Close(Ok(())))));
        }
        match writer_step(phase, WriterEvent::Failed(TransportFault::Closed("gone".into()))) {
            (_, WriterAction::Close(Err(e))) => {
                assert_eq!(e.text(), "io error: websocket connection closed")
            }
            _ => panic!("a failed send ends the writer"),
        }
        let (next, action) = writer_step(phase, WriterEvent::Stop);
        assert_eq!(next, draining);
        assert!(matches!(action, WriterAction::Take));
    }
    assert!(matches!(writer_step(serving, WriterEvent::Sent), (_, WriterAction::Wait)));
    assert!(matches!(writer_step(draining, WriterEvent::Sent), (_, WriterAction::Take)));
}

#[test]
fn frames_are_told_apart() {
    assert!(matches!(decode_request_frame(&Inbound::Ping), Ok(FrameAction::Continue)));
    assert!(matches!(decode_request_frame(&Inbound::Pong), Ok(FrameAction::Continue)));
    assert!(matches!(decode_request_frame(&Inbound::Raw), Ok(FrameAction::Continue)));
    assert!(matches!(decode_request_frame(&Inbound::Close), Ok(FrameAction::Close)));
    match decode_request_frame(&Inbound::Text) {
        Err(e) => assert_eq!(e.text(), "io error: websocket transport requires binary messages"),
        Ok(_) => panic!("text is refused"),
    }
    match decode_request_frame(&frame(4, "/echo", false)) {
        Ok(FrameAction::Message(m)) => assert_eq!(m.header.id, 4),
        _ => panic!("a request"),
    }
    assert!(decode_request_frame(&Inbound::Binary(vec![1, 2])).is_err());
}

#[test]
fn the_reader_answers_inline_requests_itself() {
    let router = routes();
    let mut slots = OffReaderSlots::new(Some(1));
    match reader_step(&router, &peer(), &frame(4, "/echo", false), &mut slots) {
        ReaderStep::Reply(m) => {
            assert_eq!(m.header.id, 4);
            assert_eq!(m.query_str().unwrap(), "/echo", "the query is echoed");
            assert_eq!(m.json_body().unwrap(), Value::from(5));
            assert_eq!(Message::from_slice_exact(&m.to_vec()).unwrap().query, b"/echo");
        }
        _ => panic!("expected a reply"),
    }
    assert!(matches!(
        reader_step(&router, &peer(), &frame(4, "/echo", true), &mut slots),
        ReaderStep::Continue
    ));
    match reader_step(&router, &peer(), &frame(6, "/none", false), &mut slots) {
        ReaderStep::Reply(m) => {
            assert_eq!(m.error_code(), Some(ErrorCode::MethodNotFound));
            assert_eq!(m.header.id, 6);
            assert_eq!(m.query, b"/none");
        }
        _ => panic!("expected an error reply"),
    }
    assert!(matches!(
        reader_step(&router, &peer(), &frame(6, "/none", true), &mut slots),
        ReaderStep::Continue
    ));
    assert!(matches!(
        reader_step(&router, &peer(), &Inbound::Close, &mut slots),
        ReaderStep::Close
    ));
    assert!(matches!(
        reader_step(&router, &peer(), &Inbound::Text, &mut slots),
        ReaderStep::Fail(_)
    ));
}

/// Counts its calls.
struct Tally {
    calls: Arc<AtomicUsize>,
    off_reader: bool,
}

impl HandlerErased for Tally {
    fn handle(&self, req: &Message) -> Result<Message, RepeError> {
        self.calls.fetch_add(1, Ordering::SeqCst);
        Ok(notify_message("/unused", BodyFormat::RawBinary, req.body.clone()))
    }
    fn handle_with_ctx(&self, req: &Message, ctx: &CallContext<'_>) -> Result<Message, RepeError> {
        assert_eq!(ctx.peer().map(|p| p.peer_id()), Some(PeerId(3)));
        self.handle(req)
    }
    fn execution(&self) -> Execution {
        if self.off_reader {
            Execution::OffReader
        } else {
            Execution::Inline
        }
    }
}

impl Middleware<Composed<Tally>> for NoStage {
    fn handle(
        &self,
        req: &Message,
        next: Next<'_, Composed<Tally>, NoStage>,
    ) -> Result<Message, RepeError> {
        next.run(req)
    }
}

#[test]
fn a_notify_runs_its_handler_on_either_path() {
    let calls = Arc::new(AtomicUsize::new(0));
    let tally = |off_reader| Arc::new(Tally { calls: Arc::clone(&calls), off_reader });
    let router: Router<Tally, NoStage> = Router::new()
        .with_erased_handler("/inline", tally(false))
        .with_erased_handler("/off", tally(true));
    let mut slots = OffReaderSlots::new(Some(1));
    assert!(matches!(
        reader_step(&router, &peer(), &frame(4, "/inline", true), &mut slots),
        ReaderStep::Continue
    ));
    assert_eq!(calls.load(Ordering::SeqCst), 1);
    match reader_step(&router, &peer(), &frame(5, "/off", true), &mut slots) {
        ReaderStep::Spawn { handler, request, notify } => {
            assert!(run_handler(&handler, &request, &peer(), notify).is_none());
        }
        _ => panic!("expected a spawn"),
    }
    assert_eq!(calls.load(Ordering::SeqCst), 2);
}

#[test]
fn a_full_connection_turns_off_reader_requests_away() {
    let router = routes();
    let mut slots = OffReaderSlots::new(Some(1));
    let (handler, request, notify) =
        match reader_step(&router, &peer(), &frame(4, "/slow", false), &mut slots) {
            ReaderStep::Spawn { handler, request, notify } => (handler, request, notify),
            _ => panic!("expected a spawn"),
        };
    match reader_step(&router, &peer(), &frame(5, "/slow", false), &mut slots) {
        ReaderStep::Saturated { error, response } => {
            assert_eq!(error.text(), "off-reader dispatch limit reached for /slow; retry");
            let response = response.unwrap();
            assert_eq!(response.header.id, 5);
            assert_eq!(response.error_code(), Some(ErrorCode::ResourceExhausted));
            assert_eq!(response.body, b"off-reader dispatch limit reached; retry");
        }
        _ => panic!("expected a rejection"),
    }
    match reader_step(&router, &peer(), &frame(5, "/slow", true), &mut slots) {
        ReaderStep::Saturated { response, .. } => assert!(response.is_none()),
        _ => panic!("expected a rejection"),
    }
    // What runs inline is still served.
    assert!(matches!(
        reader_step(&router, &peer(), &frame(6, "/echo", false), &mut slots),
        ReaderStep::Reply(_)
    ));
    let returned = run_handler(&handler, &request, &peer(), notify);
    let (reply, report) = off_reader_reply(&request, notify, RunEnd::Returned(returned));
    assert!(report.is_none());
    assert_eq!(reply.unwrap().query, b"/slow");
    slots.release();
    assert!(matches!(
        reader_step(&router, &peer(), &frame(7, "/slow", false), &mut slots),
        ReaderStep::Spawn { .. }
    ));
}

#[test]
fn without_a_limit_every_request_is_run() {
    let mut slots = OffReaderSlots::new(None);
    for _ in 0..100 {
        assert!(slots.try_acquire());
    }
    slots.release();
    let mut one = OffReaderSlots::new(Some(1));
    assert!(one.try_acquire());
    assert!(!one.try_acquire());
}

#[test]
fn a_panic_is_answered_and_reported() {
    let request = message_with_value(8, false, "/boom", &Value::Null, BodyFormat::Json).unwrap();
    let (reply, report) = off_reader_reply(&request, false, RunEnd::Panicked);
    let reply = reply.unwrap();
    assert_eq!(reply.error_code(), Some(ErrorCode::InternalError));
    assert_eq!(reply.body, b"handler panicked");
    assert_eq!(reply.header.id, 8);
    assert_eq!(reply.query, b"/boom");
    assert!(matches!(report, Some(ConnectionError::HandlerPanic { method }) if method == "/boom"));
    let (silent, report) = off_reader_reply(&request, true, RunEnd::Panicked);
    assert!(silent.is_none());
    assert!(report.is_some());
}

#[test]
fn the_reader_s_error_comes_before_the_writer_s() {
    let failed = || Err::<(), _>(RepeError::ReservedNonZero);
    assert!(settle_connection(Ok(()), Ok(())).is_ok());
    assert!(settle_connection(Ok(()), failed()).is_err());
    let both = settle_connection(Err(RepeError::InvalidUtf8), failed());
    assert!(matches!(both, Err(RepeError::InvalidUtf8)));
    assert_eq!(
        writer_panic_error("oops").text(),
        "io error: websocket writer task panicked: oops"
    );
}

type Configured = WebSocketServer<Function, NoStage, &'static str, &'static str, &'static str, u8>;

#[test]
fn hooks_are_kept_in_order() {
    let registry = Arc::new(7u8);
    let server = Configured::new(routes())
        .on_peer_connect("a")
        .with_peer_registry(Arc::clone(&registry))
        .on_peer_connect("b")
        .on_peer_disconnect("c")
        .on_error("d")
        .with_outbound_capacity(3)
        .with_offreader_limit(0)
        .into_shared();
    let shared = server.share();
    assert_eq!(shared.outbound_capacity(), 3);
    assert!(matches!(shared.ids(), IdSource::Registry(r) if **r == 7));
    let connects: Vec<String> = shared
        .connect_hooks()
        .iter()
        .map(|h| match h {
            ConnectHook::Call(name) => name.to_string(),
            ConnectHook::Insert(r) => format!("insert {r}"),
        })
        .collect();
    assert_eq!(connects, vec!["a", "insert 7", "b"]);
    assert_eq!(shared.disconnect_hooks().len(), 2);
    assert!(matches!(&shared.disconnect_hooks()[0], DisconnectHook::Remove(_)));
    assert!(matches!(&shared.disconnect_hooks()[1], DisconnectHook::Call("c")));
    assert_eq!(shared.error_hooks(), &vec!["d"]);
    assert!(shared.router().get("/echo").is_some());
    let mut slots = shared.offreader_slots();
    assert!(slots.try_acquire() && slots.try_acquire());
}

#[test]
fn a_server_has_limits_by_default() {
    let shared = Configured::new(routes()).into_shared();
    assert_eq!(shared.outbound_capacity(), 256);
    assert!(matches!(shared.ids(), IdSource::Own));
    let mut slots = shared.offreader_slots();
    for _ in 0..16 {
        assert!(slots.try_acquire());
    }
    assert!(!slots.try_acquire());
}

#[test]
fn peer_ids_count_up() {
    let mut ids = PeerIds::new();
    assert_eq!(ids.allocate(), PeerId(0));
    assert_eq!(ids.allocate(), PeerId(1));
}

#[test]
fn a_pushed_notify_has_id_zero() {
    let m = notify_message("/progress", BodyFormat::Utf8, b"half".to_vec());
    assert_eq!(m.header.id, 0);
    assert_eq!(m.header.notify, 1);
    assert_eq!(m.query, b"/progress");
    assert_eq!(m.header.query_format, QueryFormat::JsonPointer.code());
    assert_eq!(m.header.body_format, BodyFormat::Utf8.code());
    assert_eq!(m.body, b"half");
}

#[test]
fn paths_are_normalized() {
    for (configured, served) in [
        ("", "/"),
        ("/", "/"),
        ("repe", "/repe"),
        ("/repe", "/repe"),
        ("/repe/", "/repe"),
        ("repe//", "/repe"),
        ("/a/b/", "/a/b"),
        ("//", ""),
    ] {
        assert_eq!(normalize_path(configured), served);
    }
    assert!(validate_path("/repe", "/repe").is_ok());
    assert_eq!(
        validate_path("/repe", "/other").unwrap_err(),
        "REPE websocket endpoint not found: /other"
    );
}

#[test]
fn transport_failures_become_io_errors() {
    let io = IoError { kind: IoKind::BrokenPipe, message: "pipe".to_string() };
    assert_eq!(websocket_transport_error(TransportFault::Io(io.clone())).text(), "io error: pipe");
    let closed = websocket_transport_error(TransportFault::Closed("bye".to_string()));
    assert_eq!(closed.text(), "io error: websocket connection closed");
    assert!(matches!(closed, RepeError::Io(IoError { kind: IoKind::ConnectionAborted, .. })));
    let other = websocket_transport_error(TransportFault::Other("odd".to_string()));
    assert_eq!(other.text(), "io error: odd");
    assert_eq!(websocket_connect_error(TransportFault::Io(io)).kind, IoKind::BrokenPipe);
    assert_eq!(websocket_connect_error(TransportFault::Closed("bye".to_string())).message, "bye");
    assert_eq!(websocket_connect_error(TransportFault::Other("odd".to_string())).message, "odd");
}

// ---- clients ----

fn reply_frame(id: u64, notify: bool) -> ReadEvent {
    let m = message_with_formats(id, notify, "", 0, Some(b"1"), BodyFormat::Json.code());
    ReadEvent::Frame(Inbound::Binary(m.to_vec()))
}

#[test]
fn a_response_reaches_its_request_once() {
    let mut ids = RequestIds::new();
    let mut pending: PendingRequests<&str> = PendingRequests::new();
    let silent: NotifySlot<()> = NotifySlot::new();
    let first = ids.next_request_id();
    let second = ids.next_request_id();
    assert_eq!((first, second), (1, 2));
    pending.register(first, "one").unwrap();
    pending.register(second, "two").unwrap();
    let duplicate = match pending.register(second, "again") {
        Err(e) => e,
        Ok(_) => panic!("the id is in use"),
    };
    assert_eq!(duplicate.text(), "io error: request id 2 is already pending");

    match response_step(&mut pending, &silent, reply_frame(2, false)) {
        LoopAction::Matched { sender, response } => {
            assert_eq!(sender, "two");
            assert_eq!(response.header.id, 2);
        }
        _ => panic!("expected a match"),
    }
    match response_step(&mut pending, &silent, reply_frame(2, false)) {
        LoopAction::Unrecognized { got_id } => assert_eq!(
            unrecognized_text(got_id),
            "[repe] dropping websocket response for unrecognized request id 2"
        ),
        _ => panic!("nobody waits any more"),
    }
    assert_eq!(pending.len(), 1);
    assert!(pending.contains(1));
}

#[test]
fn notifies_go_to_the_subscriber_only() {
    let mut pending: PendingRequests<()> = PendingRequests::default();
    pending.register(1, ()).unwrap();
    let mut slot: NotifySlot<&str> = NotifySlot::new();
    assert!(matches!(
        response_step(&mut pending, &slot, reply_frame(1, true)),
        LoopAction::DroppedNotify
    ));
    slot.subscribe_notifies(false, "first").unwrap();
    match response_step(&mut pending, &slot, reply_frame(1, true)) {
        LoopAction::Notify(m) => assert_eq!(m.header.notify, 1),
        _ => panic!("expected a notify"),
    }
    assert!(pending.contains(1), "a notify answers no request");
}

#[test]
fn a_live_subscription_is_not_replaced() {
    let mut slot: NotifySlot<&str> = NotifySlot::new();
    slot.subscribe_notifies(false, "first").unwrap();
    assert_eq!(slot.subscribe_notifies(false, "second"), Err(AlreadySubscribed));
    assert_eq!(
        AlreadySubscribed.text(),
        "a notify subscription is already active on this WebSocketClient"
    );
    assert_eq!(slot.sender, Some("first"));
    slot.subscribe_notifies(true, "third").unwrap();
    assert_eq!(slot.sender, Some("third"));
    slot.forget_stale(false);
    assert_eq!(slot.sender, Some("third"));
    slot.forget_stale(true);
    assert_eq!(slot.sender, None);
    slot.subscribe_notifies(false, "fourth").unwrap();
    slot.unsubscribe_notifies();
    assert_eq!(slot.sender, None);
}

#[test]
fn a_failed_connection_fails_every_request() {
    let mut pending: PendingRequests<u8> = PendingRequests::new();
    for id in 1..=3u64 {
        pending.register(id, id as u8).unwrap();
    }
    let silent: NotifySlot<()> = NotifySlot::new();
    let err = match response_step(&mut pending, &silent, ReadEvent::Ended) {
        LoopAction::Fail(e) => e,
        _ => panic!("the connection is over"),
    };
    let mut told = pending.fail_all_pending(&err);
    assert_eq!(pending.len(), 0);
    told.sort_by_key(|t| t.0);
    assert_eq!(told.len(), 3);
    assert_eq!(told[1].1, 2);
    assert_eq!(told[1].2.text(), "io error: request 2: websocket connection closed");
}

#[test]
fn every_end_of_a_connection_is_an_error() {
    let mut pending: PendingRequests<()> = PendingRequests::new();
    let silent: NotifySlot<()> = NotifySlot::new();
    let broken = TransportFault::Other("odd".to_string());
    for (event, text) in [
        (ReadEvent::Failed(broken), "io error: odd"),
        (ReadEvent::Ended, "io error: websocket connection closed"),
        (ReadEvent::Frame(Inbound::Close), "io error: websocket connection closed"),
        (
            ReadEvent::Frame(Inbound::Text),
            "io error: websocket transport requires binary messages",
        ),
    ] {
        match response_step(&mut pending, &silent, event) {
            LoopAction::Fail(e) => assert_eq!(e.text(), text),
            _ => panic!("expected a failure"),
        }
    }
    let trailing = {
        let mut bytes = message_with_formats(1, false, "", 0, None, 0).to_vec();
        bytes.push(0);
        ReadEvent::Frame(Inbound::Binary(bytes))
    };
    assert!(matches!(response_step(&mut pending, &silent, trailing), LoopAction::Fail(_)));
    assert!(matches!(
        response_step(&mut pending, &silent, ReadEvent::Frame(Inbound::Ping)),
        LoopAction::Continue
    ));
}

#[test]
fn a_waiter_is_told_which_request_failed() {
    let told = |e: RepeError| clone_fatal_error_for_waiter(&e, 9);
    assert!(matches!(told(RepeError::VersionMismatch(2)), RepeError::VersionMismatch(2)));
    assert!(matches!(told(RepeError::InvalidSpec(3)), RepeError::InvalidSpec(3)));
    assert!(matches!(told(RepeError::InvalidHeaderLength(4)), RepeError::InvalidHeaderLength(4)));
    assert!(matches!(told(RepeError::ReservedNonZero), RepeError::ReservedNonZero));
    assert!(matches!(
        told(RepeError::LengthMismatch { expected: 1, got: 2 }),
        RepeError::LengthMismatch { expected: 1, got: 2 }
    ));
    assert!(matches!(
        told(RepeError::BufferTooSmall { need: 1, have: 2 }),
        RepeError::BufferTooSmall { need: 1, have: 2 }
    ));
    assert!(matches!(
        told(RepeError::ResponseIdMismatch { expected: 1, got: 2 }),
        RepeError::ResponseIdMismatch { expected: 1, got: 2 }
    ));
    assert!(matches!(
        told(RepeError::io(IoKind::TimedOut, "late")),
        RepeError::Io(IoError { kind: IoKind::TimedOut, message }) if message == "request 9: late"
    ));
    assert!(matches!(
        told(RepeError::Json("x".to_string())),
        RepeError::Json(m) if m == "request 9: x"
    ));
    assert!(matches!(
        told(RepeError::Beve("x".to_string())),
        RepeError::Beve(m) if m == "request 9: x"
    ));
    assert!(matches!(told(RepeError::InvalidUtf8), RepeError::InvalidUtf8));
    assert!(matches!(told(RepeError::UnknownEnumValue(7)), RepeError::UnknownEnumValue(7)));
    assert!(matches!(
        told(RepeError::ServerError { code: ErrorCode::Timeout, message: "m".to_string() }),
        RepeError::ServerError { code: ErrorCode::Timeout, message } if message == "m"
    ));
    assert!(matches!(
        told(RepeError::MessageTooLarge { size: 2, limit: 1 }),
        RepeError::MessageTooLarge { size: 2, limit: 1 }
    ));
}

fn settled(received: Received) -> (Result<Message, RepeError>, usize) {
    let mut pending: PendingRequests<()> = PendingRequests::new();
    let guard = pending.register(4, ()).unwrap();
    let r = settle_call(&mut pending, guard, received);
    (r, pending.len())
}

#[test]
fn a_call_ends_with_its_response_or_an_error() {
    let response = |id: u64| message_with_formats(id, false, "", 0, Some(b"1"), 2);
    let (ok, left) = settled(Received::Value(Ok(response(4))));
    assert_eq!(ok.unwrap().header.id, 4);
    assert_eq!(left, 1, "whoever delivered the response took the entry");
    let (wrong, _) = settled(Received::Value(Ok(response(5))));
    assert!(matches!(wrong, Err(RepeError::ResponseIdMismatch { expected: 4, got: 5 })));
    let (failed, left) = settled(Received::Value(Err(RepeError::ReservedNonZero)));
    assert!(matches!(failed, Err(RepeError::ReservedNonZero)));
    assert_eq!(left, 0);
    let (closed, left) = settled(Received::ChannelClosed);
    assert_eq!(
        closed.unwrap_err().text(),
        "io error: response channel closed for request 4"
    );
    assert_eq!(left, 0);
    let (late, left) = settled(Received::TimedOut(1500));
    assert_eq!(late.unwrap_err().text(), "io error: request 4 timed out after 1500ms");
    assert_eq!(left, 0);
}

#[test]
fn responses_are_validated() {
    let mut old = message_with_formats(1, false, "", 0, None, 0);
    old.header.version = 9;
    assert!(matches!(validate_response(1, old), Err(RepeError::VersionMismatch(9))));
    let mut failed = message_with_formats(1, false, "", 0, Some(b"no"), 3);
    failed.header.ec = ErrorCode::InvalidBody.code();
    match validate_response(1, failed) {
        Err(RepeError::ServerError { code, message }) => {
            assert_eq!(code, ErrorCode::InvalidBody);
            assert_eq!(message, "no");
        }
        _ => panic!("expected the server's error"),
    }
    let mut odd = message_with_formats(1, false, "", 0, Some(b"\xff"), 3);
    odd.header.ec = 77;
    match validate_response(1, odd) {
        Err(RepeError::ServerError { code, message }) => {
            assert_eq!(code, ErrorCode::ParseError);
            assert_eq!(message, ErrorCode::ParseError.message());
        }
        _ => panic!("expected a server error"),
    }
}

#[test]
fn a_response_is_read_by_its_format() {
    let json = message_with_value(1, false, "/", &Value::from(3), BodyFormat::Json).unwrap();
    assert_eq!(response_format(&json).unwrap(), TypedFormat::Json);
    assert_eq!(decode_typed_response(&json).unwrap(), Value::from(3));
    let beve = message_with_value(1, false, "/", &Value::from(3), BodyFormat::Beve).unwrap();
    assert_eq!(response_format(&beve).unwrap(), TypedFormat::Beve);
    assert_eq!(decode_typed_response(&beve).unwrap(), Value::from(3));
    let text = message_with_formats(1, false, "/", 1, Some(b"4"), BodyFormat::Utf8.code());
    assert_eq!(decode_typed_response(&text).unwrap(), Value::from(4));
    let raw = message_with_formats(1, false, "/", 1, Some(b"4"), BodyFormat::RawBinary.code());
    assert_eq!(
        decode_typed_response(&raw).unwrap_err().text(),
        "json error: response body is neither JSON nor BEVE"
    );
    let unknown = message_with_formats(1, false, "/", 1, Some(b"4"), 99);
    assert!(matches!(decode_typed_response(&unknown), Err(RepeError::UnknownEnumValue(99))));
    let broken = message_with_formats(1, false, "/", 1, Some(b"{"), BodyFormat::Json.code());
    assert!(matches!(decode_typed_response(&broken), Err(RepeError::Json(_))));
}

#[test]
fn a_batch_comes_back_in_order() {
    let finished = vec![(2, Ok('c')), (0, Ok('a'))];
    let results = collect_batch(3, finished);
    assert_eq!(results.len(), 3);
    assert!(matches!(results[0], Ok('a')));
    assert!(matches!(results[2], Ok('c')));
    match &results[1] {
        Err(e) => assert_eq!(e.text(), "io error: batch worker missing result"),
        Ok(_) => panic!("nothing came"),
    }
    assert_eq!(batch_worker_join_error("x").text(), "io error: batch worker failed: x");
}

// ---- clients in a browser ----

#[test]
fn a_browser_event_is_matched_or_fails_everything() {
    let mut pending: PendingRequests<u8> = PendingRequests::new();
    pending.register(1, 10).unwrap();
    pending.register(2, 20).unwrap();
    let reply = message_with_formats(2, false, "", 0, None, 0).to_vec();
    match handle_message(&mut pending, &Some(reply.clone())) {
        EventAction::Matched { sender, response } => {
            assert_eq!((sender, response.header.id), (20, 2))
        }
        _ => panic!("expected a match"),
    }
    assert!(matches!(
        handle_message(&mut pending, &Some(reply)),
        EventAction::Unrecognized { got_id: 2 }
    ));
    match handle_message(&mut pending, &None) {
        EventAction::FailAll(told) => {
            assert_eq!(told.len(), 1);
            assert_eq!(
                told[0].2.text(),
                "io error: request 1: websocket transport requires ArrayBuffer"
            );
        }
        _ => panic!("expected a failure"),
    }
    assert_eq!(pending.len(), 0);
    assert!(decode_message_event(&Some(vec![1])).is_err());
}

#[test]
fn opening_ends_well_or_with_an_error() {
    assert!(settle_open(OpenSignal::Opened).is_ok());
    assert_eq!(
        settle_open(OpenSignal::Failed).unwrap_err().text(),
        "io error: websocket connection failed"
    );
    assert_eq!(
        settle_open(OpenSignal::ChannelClosed).unwrap_err().text(),
        "io error: websocket open channel closed"
    );
}

#[test]
fn a_timer_takes_what_fits() {
    assert_eq!(timer_delay(0), 0);
    assert_eq!(timer_delay(2_147_483_647), i32::MAX);
    assert_eq!(timer_delay(u128::MAX), i32::MAX);
}

#[test]
fn a_call_waits_under_the_id_that_it_sends() {
    let mut ids = RequestIds::new();
    let mut pending: PendingRequests<&str> = PendingRequests::new();
    let format = BodyFormat::Json.code();
    let (message, guard) =
        begin_call(&mut ids, &mut pending, "first", "/a", 1, Ok(Some(b"5")), format).unwrap();
    assert_eq!(message.header.id, 1);
    assert_eq!(message.header.notify, 0);
    assert_eq!((message.query.as_slice(), message.body.as_slice()), (&b"/a"[..], &b"5"[..]));
    assert_eq!(guard.request_id, 1);
    assert!(pending.contains(1));

    let unwritten = RepeError::Json("no".to_string());
    assert!(begin_call(&mut ids, &mut pending, "x", "/a", 1, Err(unwritten), format).is_err());
    assert_eq!(pending.len(), 1);

    let notify = begin_notify(&mut ids, "/n", 1, Ok(None), format).unwrap();
    assert_eq!((notify.header.id, notify.header.notify), (3, 1));
    assert!(notify.body.is_empty());
    assert!(begin_notify(&mut ids, "/n", 1, Err(RepeError::InvalidUtf8), format).is_err());
    assert_eq!(pending.len(), 1);

    let mut again = RequestIds::new();
    match begin_call(&mut again, &mut pending, "second", "/a", 1, Ok(None), format) {
        Err(e) => assert_eq!(e.text(), "io error: request id 1 is already pending"),
        Ok(_) => panic!("the id is in use"),
    }
    assert_eq!(pending.take(1), Some("first"));
}

#[test]
fn responses_are_matched_in_any_order() {
    let silent: NotifySlot<()> = NotifySlot::new();
    for order in [[1u64, 2], [2, 1]] {
        let mut ids = RequestIds::new();
        let mut pending: PendingRequests<u64> = PendingRequests::new();
        let mut guards = Vec::new();
        for sender in [10, 20] {
            let begun = begin_call(&mut ids, &mut pending, sender, "/echo", 1, Ok(None), 2).unwrap();
            guards.push(begun.1);
        }
        for id in order {
            match response_step(&mut pending, &silent, ReadEvent::Frame(frame(id, "/echo", false))) {
                LoopAction::Matched { sender, response } => {
                    assert_eq!(sender, id * 10);
                    let at = guards.iter().position(|g| g.request_id == id).unwrap();
                    let guard = guards.remove(at);
                    let done = settle_call(&mut pending, guard, Received::Value(Ok(response)));
                    assert_eq!(done.unwrap().header.id, id);
                }
                _ => panic!("the request waits"),
            }
        }
        assert_eq!(pending.len(), 0);
    }
}
