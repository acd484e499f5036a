//! Routing, middleware, mounts and the fallback.

use repe::constants::{BodyFormat, ErrorCode, QueryFormat, TypedFormat, HEADER_SIZE};
use repe::error::{IoKind, RepeError};
use repe::handler::{
    Execution, HandlerErased, JsonHandler, JsonHandlerCtx, Middleware, Next,
};
use repe::message::{
    create_error_response_like, create_response, write_view_response, Message, MessageView,
};
use repe::mount::{
    serve_exclusive, serve_shared, LockError, Lockable, Registry, RegistryError,
};
use repe::peer::{CallContext, PeerHandle, PeerId};
use repe::server::{Composed, Erases, Router, Server};
use repe::server_request::{
    connection_step, dispatch, dispatch_view, route_request_view, ConnectionEvent, ConnectionStep,
};
use repe::structs::{path_from_segments, RepeStruct, StructError, StructResult};
use repe::typed::{
    response_written_as, slice_form, FixedResult, IntoTypedResponse, JsonTypedHandler, SliceForm,
    SliceInput, TypedHandlerFn, TypedHandlerFnCtx, TypedResponse, TypedResult, TypedSliceFn,
    BEVE_ALIGNED_TYPED_ARRAY_MARKER,
};
use serde::de::DeserializeOwned;
use serde::Serialize;
use serde_json::Value;
use std::collections::HashMap;
use std::marker::PhantomData;
use std::sync::atomic::{AtomicBool, AtomicUsize, Ordering};
use std::sync::{Arc, Mutex};

// ---- a handler type that can stand for any other ----

trait Object {
    fn plain(&self, req: &Message) -> Result<Message, RepeError>;
    fn in_context(&self, req: &Message, ctx: &CallContext<'_>) -> Result<Message, RepeError>;
    fn borrowed(&self, view: &MessageView<'_>, ctx: &CallContext<'_>) -> Result<Message, RepeError>;
    fn place(&self) -> Execution;
}

impl<X: HandlerErased> Object for X {
    fn plain(&self, req: &Message) -> Result<Message, RepeError> {
        self.handle(req)
    }
    fn in_context(&self, req: &Message, ctx: &CallContext<'_>) -> Result<Message, RepeError> {
        self.handle_with_ctx(req, ctx)
    }
    fn borrowed(&self, view: &MessageView<'_>, ctx: &CallContext<'_>) -> Result<Message, RepeError> {
        self.handle_view(view, ctx)
    }
    fn place(&self) -> Execution {
        self.execution()
    }
}

struct Any(Box<dyn Object>);

impl HandlerErased for Any {
    fn handle(&self, req: &Message) -> Result<Message, RepeError> {
        self.0.plain(req)
    }
    fn handle_with_ctx(&self, req: &Message, ctx: &CallContext<'_>) -> Result<Message, RepeError> {
        self.0.in_context(req, ctx)
    }
    fn handle_view(&self, view: &MessageView<'_>, ctx: &CallContext<'_>) -> Result<Message, RepeError> {
        self.0.borrowed(view, ctx)
    }
    fn execution(&self) -> Execution {
        self.0.place()
    }
}

impl<X: HandlerErased + 'static> Erases<X> for Any {
    fn erase(x: X) -> Any {
        Any(Box::new(x))
    }
}

fn any<X: HandlerErased + 'static>(x: X) -> Arc<Any> {
    Arc::new(Any(Box::new(x)))
}

type Stage = dyn Fn(&Message, Next<'_, Composed<Any>, Mw>) -> Result<Message, RepeError>;

struct Mw(Box<Stage>);

impl Middleware<Composed<Any>> for Mw {
    fn handle(&self, req: &Message, next: Next<'_, Composed<Any>, Mw>) -> Result<Message, RepeError> {
        (self.0)(req, next)
    }
}

fn stage<F>(f: F) -> Mw
where
    F: Fn(&Message, Next<'_, Composed<Any>, Mw>) -> Result<Message, RepeError> + 'static,
{
    Mw(Box::new(f))
}

type Routes = Router<Any, Mw>;

fn js(text: &str) -> Value {
    serde_json::from_str(text).unwrap()
}

fn request(id: u64, path: &str, body: &Value) -> Message {
    Message::builder()
        .id(id)
        .query_str(path)
        .query_format(QueryFormat::JsonPointer)
        .body_json(body)
        .unwrap()
        .build()
}

// ---- functions on serde values and on numbers ----

fn read<T: DeserializeOwned>(format: TypedFormat, input: &[u8]) -> Result<T, RepeError> {
    match format {
        TypedFormat::Json => {
            serde_json::from_slice(input).map_err(|e| RepeError::Json(e.to_string()))
        }
        TypedFormat::Beve => beve::from_slice(input).map_err(|e| RepeError::Beve(e.to_string())),
    }
}

fn write<R: Serialize>(outcome: Result<(R, BodyFormat), (ErrorCode, String)>) -> TypedResult {
    let (value, format) = match outcome {
        Ok(out) => out,
        Err(refusal) => return Ok(Err(refusal)),
    };
    let bytes = match response_written_as(format) {
        TypedFormat::Json => {
            serde_json::to_vec(&value).map_err(|e| RepeError::Json(e.to_string()))?
        }
        TypedFormat::Beve => beve::to_vec(&value).map_err(|e| RepeError::Beve(e.to_string()))?,
    };
    Ok(Ok((bytes, format)))
}

struct Typed<T, R, S, F>(F, PhantomData<fn(T) -> (R, S)>);

impl<T, R, S, F> TypedHandlerFn for Typed<T, R, S, F>
where
    T: DeserializeOwned,
    R: Serialize,
    S: IntoTypedResponse<R>,
    F: Fn(T) -> Result<S, (ErrorCode, String)>,
{
    fn call(&self, format: TypedFormat, input: &[u8]) -> TypedResult {
        let value: T = read(format, input)?;
        write((self.0)(value).map(|out| <S as IntoTypedResponse<R>>::into_typed_response(out)))
    }
}

fn typed<T, R, S, F>(f: F) -> Typed<T, R, S, F>
where
    F: Fn(T) -> Result<S, (ErrorCode, String)>,
{
    Typed(f, PhantomData)
}

struct PathOf;

impl TypedHandlerFnCtx for PathOf {
    fn call(&self, ctx: &CallContext<'_>, format: TypedFormat, input: &[u8]) -> TypedResult {
        let n: i64 = read(format, input)?;
        let text = format!("{} {n}", ctx.method());
        write(Ok((text, BodyFormat::Json)))
    }
}

struct Doubler;

impl JsonTypedHandler for Doubler {
    fn call(&self, format: TypedFormat, input: &[u8]) -> FixedResult {
        let value: Value = read(format, input)?;
        match value.get("n").and_then(|v| v.as_i64()) {
            Some(n) => Ok(Ok(serde_json::to_vec(&HashMap::from([("double", n * 2)])).unwrap())),
            None => Ok(Err((ErrorCode::InvalidBody, "missing n".to_string()))),
        }
    }
}

struct Scale;

impl TypedSliceFn for Scale {
    fn call(&self, form: SliceForm, input: &[u8]) -> FixedResult {
        let numbers: Vec<f64> = match form {
            SliceForm::Aligned => beve::read_aligned_typed_slice(input),
            SliceForm::Regular => beve::read_typed_slice(input),
        }
        .map_err(|e| RepeError::Beve(e.to_string()))?;
        if numbers.is_empty() {
            return Ok(Err((ErrorCode::ApplicationErrorBase, "nothing to scale".to_string())));
        }
        let doubled: Vec<f64> = numbers.iter().map(|x| x * 2.0).collect();
        Ok(Ok(beve::to_vec_typed_slice(&doubled)))
    }
}

#[test]
fn typed_handler_accepts_beve_payload() {
    let router = Routes::new().with_typed(
        "/aggregate",
        typed::<Value, Value, Value, _>(|frame: Value| {
            let mut total = 0.0;
            let mut count = 0usize;
            for stream in frame["streams"].as_array().unwrap() {
                for value in stream["samples"].as_array().unwrap() {
                    total += value.as_f64().unwrap();
                    count += 1;
                }
            }
            let mut out = serde_json::Map::new();
            out.insert("device".to_string(), frame["device"]["id"].clone());
            out.insert("location".to_string(), frame["device"]["location"].clone());
            out.insert("sample_count".to_string(), Value::from(count));
            out.insert("average".to_string(), Value::from(total / count as f64));
            out.insert("tags".to_string(), frame["tags"].clone());
            Ok(Value::Object(out))
        }),
    );
    let frame = js(
        r#"{"device": {"id": "sensor-42", "location": "north-wing"},
            "streams": [
                {"channel": "temperature", "samples": [20.5, 21.0, 20.7]},
                {"channel": "humidity", "samples": [47.0, 46.5]}
            ],
            "tags": {"site": "warehouse", "line": "A-1"}}"#,
    );
    let request = Message::builder()
        .id(101)
        .query_str("/aggregate")
        .query_format(QueryFormat::JsonPointer)
        .body_beve(&frame)
        .unwrap()
        .build();
    let response = router.get("/aggregate").expect("handler to exist").handle(&request).unwrap();
    assert_eq!(response.header.ec, ErrorCode::Success.code());
    assert_eq!(response.header.body_format, BodyFormat::Json.code());
    let aggregate = response.json_body().unwrap();
    assert_eq!(aggregate["device"], "sensor-42");
    assert_eq!(aggregate["location"], "north-wing");
    assert_eq!(aggregate["sample_count"], 5);
    let expected = (20.5 + 21.0 + 20.7 + 47.0 + 46.5) / 5.0;
    assert!((aggregate["average"].as_f64().unwrap() - expected).abs() < 1e-12);
    assert_eq!(aggregate["tags"], js(r#"{"site": "warehouse", "line": "A-1"}"#));
}

#[test]
fn router_with_json_and_typed_handlers() {
    let router = Routes::new().with_json("/echo", |v: Value| Ok(v)).with_typed(
        "/sum",
        typed::<HashMap<String, i32>, HashMap<String, i32>, HashMap<String, i32>, _>(
            |inp: HashMap<String, i32>| Ok(HashMap::from([("sum".to_string(), inp["x"] + inp["y"])])),
        ),
    );
    let msg = request(1, "/sum", &js(r#"{"x": 2, "y": 3}"#));
    let resp = router.get("/sum").expect("handler").handle(&msg).unwrap();
    assert_eq!(resp.header.ec, ErrorCode::Success.code());
    assert_eq!(resp.json_body().unwrap()["sum"], 5);
}

#[test]
fn router_with_handler_invokes_typed_trait() {
    let router = Routes::new().with_handler("/double", Doubler);
    let msg = request(5, "/double", &js(r#"{"n": 4}"#));
    let handler = router.get("/double").expect("handler");
    let resp = handler.handle(&msg).unwrap();
    assert_eq!(resp.header.ec, ErrorCode::Success.code());
    assert_eq!(resp.json_body().unwrap()["double"], 8);

    let refused = handler.handle(&request(6, "/double", &js("{}"))).unwrap();
    assert_eq!(refused.header.id, 6);
    assert_eq!(refused.error_code(), Some(ErrorCode::InvalidBody));
    assert_eq!(refused.body, b"missing n");
}

#[test]
fn a_typed_handler_reads_json_and_beve_only() {
    let router = Routes::new().with_typed(
        "/next",
        typed::<i64, i64, TypedResponse<i64>, _>(|n: i64| Ok(TypedResponse::beve(n + 1))),
    );
    let handler = router.get("/next").unwrap();
    let of = |body: Vec<u8>, format: BodyFormat| {
        Message::builder().id(9).query_str("/next").body_bytes(body).body_format(format).build()
    };
    for message in [
        of(b"41".to_vec(), BodyFormat::Json),
        of(b"41".to_vec(), BodyFormat::Utf8),
        of(beve::to_vec(&41i64).unwrap(), BodyFormat::Beve),
    ] {
        let reply = handler.handle(&message).unwrap();
        assert_eq!(reply.header.body_format, BodyFormat::Beve.code());
        assert_eq!(reply.body, beve::to_vec(&42i64).unwrap());
        let peer = PeerHandle::new(PeerId(1));
        let ctx = CallContext::new("/next", &peer);
        let bytes = message.to_vec();
        let view = MessageView::from_slice(&bytes).unwrap();
        assert_eq!(handler.handle_view(&view, &ctx).unwrap().body, reply.body);
    }
    let refused = handler.handle(&of(b"41".to_vec(), BodyFormat::RawBinary)).unwrap();
    assert_eq!(refused.header.id, 9);
    assert_eq!(refused.error_code(), Some(ErrorCode::InvalidBody));
    assert_eq!(refused.body, b"Expected JSON body");
    assert!(matches!(
        handler.handle(&of(b"{".to_vec(), BodyFormat::Json)),
        Err(RepeError::Json(_))
    ));
}

#[test]
fn a_typed_function_may_take_the_context() {
    let router = Routes::new().with_typed_ctx("/where", PathOf);
    let handler = router.get("/where").unwrap();
    let msg = request(1, "/where", &Value::from(7));
    assert_eq!(handler.handle(&msg).unwrap().json_body().unwrap(), Value::from("/where 7"));
    let peer = PeerHandle::new(PeerId(9));
    let ctx = CallContext::new("/elsewhere", &peer);
    assert_eq!(
        handler.handle_with_ctx(&msg, &ctx).unwrap().json_body().unwrap(),
        Value::from("/elsewhere 7")
    );
}

#[test]
fn only_a_borrowing_route_reads_aligned_numbers() {
    let router =
        Routes::new().with_typed_slice("/scale", Scale).with_typed_slice_ref("/scale_ref", Scale);
    let of = |path: &str, body: Vec<u8>, format: BodyFormat| {
        Message::builder().id(3).query_str(path).body_bytes(body).body_format(format).build()
    };
    let numbers = [1.5_f64, -2.0];
    let regular = beve::to_vec_typed_slice(&numbers);
    let aligned = beve::to_vec_aligned_typed_slice(&numbers);
    let copying = router.get("/scale").unwrap();
    let borrowing = router.get("/scale_ref").unwrap();
    for (handler, body) in
        [(&copying, &regular), (&borrowing, &regular), (&borrowing, &aligned)]
    {
        let reply = handler.handle(&of("/scale", body.clone(), BodyFormat::Beve)).unwrap();
        assert_eq!(reply.header.body_format, BodyFormat::Beve.code());
        let scaled: Vec<f64> = beve::read_typed_slice(&reply.body).unwrap();
        assert_eq!(scaled, vec![3.0, -4.0]);
    }
    assert!(matches!(
        copying.handle(&of("/scale", aligned, BodyFormat::Beve)),
        Err(RepeError::Beve(_))
    ));
    for path in ["/scale", "/scale_ref"] {
        let handler = router.get(path).unwrap();
        let none: [f64; 0] = [];
        let refused =
            handler.handle(&of(path, beve::to_vec_typed_slice(&none), BodyFormat::Beve)).unwrap();
        assert_eq!(refused.error_code(), Some(ErrorCode::ApplicationErrorBase));
        let foreign = handler.handle(&of(path, b"[1]".to_vec(), BodyFormat::Json)).unwrap();
        assert_eq!(foreign.body, b"Expected BEVE typed-numeric body");
        assert!(matches!(
            handler.handle(&of(path, beve::to_vec(&"text").unwrap(), BodyFormat::Beve)),
            Err(RepeError::Beve(_))
        ));
    }
}

// ---- handlers and middleware ----

#[test]
fn aligned_marker_matches_beve() {
    let encoded = beve::to_vec_aligned_typed_slice(&[1.0_f64]);
    assert_eq!(encoded.first(), Some(&BEVE_ALIGNED_TYPED_ARRAY_MARKER));
}

#[test]
fn a_numeric_body_is_told_by_its_first_byte() {
    let numbers = [1.0_f64, 2.0];
    let of = |body: Vec<u8>, format: BodyFormat| {
        let m = Message::builder().id(4).body_bytes(body).body_format(format).build();
        slice_form(&m.header, &m.body)
    };
    assert!(matches!(
        of(beve::to_vec_aligned_typed_slice(&numbers), BodyFormat::Beve),
        Ok(SliceForm::Aligned)
    ));
    assert!(matches!(
        of(beve::to_vec_typed_slice(&numbers), BodyFormat::Beve),
        Ok(SliceForm::Regular)
    ));
    assert!(matches!(of(Vec::new(), BodyFormat::Beve), Ok(SliceForm::Regular)));
    match of(b"[1]".to_vec(), BodyFormat::Json) {
        Err(reply) => {
            assert_eq!(reply.header.id, 4);
            assert_eq!(reply.error_code(), Some(ErrorCode::InvalidBody));
            assert_eq!(reply.body, b"Expected BEVE typed-numeric body");
        }
        Ok(form) => panic!("unexpected {form:?}"),
    }
    assert_eq!(SliceInput::Borrowed(&numbers).as_slice(), &numbers);
    assert_eq!(SliceInput::Owned(vec![1u8, 2]).as_slice(), &[1, 2]);
}

#[test]
fn a_typed_response_carries_its_format() {
    assert_eq!(TypedResponse::beve(3).into_typed_response(), (3, BodyFormat::Beve));
    assert_eq!(TypedResponse::json(3).into_typed_response(), (3, BodyFormat::Json));
    assert_eq!(TypedResponse::utf8(3).into_typed_response(), (3, BodyFormat::Utf8));
    assert_eq!(TypedResponse::raw_binary(3).into_typed_response(), (3, BodyFormat::RawBinary));
    let bare: (i32, BodyFormat) = IntoTypedResponse::<i32>::into_typed_response(3);
    assert_eq!(bare, (3, BodyFormat::Json));
}

#[test]
fn middleware_runs_for_registered_handlers() {
    let hits = Arc::new(AtomicUsize::new(0));
    let hits_for_middleware = Arc::clone(&hits);
    let router = Routes::new()
        .with_middleware(stage(move |req, next| {
            assert_eq!(req.query_str().unwrap(), "/echo");
            hits_for_middleware.fetch_add(1, Ordering::SeqCst);
            next.run(req)
        }))
        .with_json("/echo", |v: Value| Ok(v));

    let request = request(7, "/echo", &js(r#"{"payload": 42}"#));
    let handler = router.get("/echo").expect("handler to exist");
    let response = handler.handle(&request).unwrap();
    assert_eq!(response.header.ec, ErrorCode::Success.code());
    assert_eq!(hits.load(Ordering::SeqCst), 1);
}

#[test]
fn middleware_can_short_circuit_requests() {
    let handler_called = Arc::new(AtomicBool::new(false));
    let handler_called_inner = Arc::clone(&handler_called);

    let router = Routes::new()
        .with_middleware(stage(|req, _next| {
            create_response(req, &js(r#"{"status": "blocked"}"#), BodyFormat::Json)
        }))
        .with_json("/blocked", move |_v: Value| {
            handler_called_inner.store(true, Ordering::SeqCst);
            Ok(js(r#"{"status": "allowed"}"#))
        });

    let request = request(11, "/blocked", &js("{}"));
    let handler = router.get("/blocked").expect("handler to exist");
    let response = handler.handle(&request).unwrap();

    assert_eq!(response.header.ec, ErrorCode::Success.code());
    assert_eq!(response.query_str().unwrap(), "/blocked", "this reply echoes the query itself");
    let body = response.json_body().unwrap();
    assert_eq!(body.get("status").and_then(|v| v.as_str()), Some("blocked"));
    assert!(!handler_called.load(Ordering::SeqCst));
}

#[test]
fn json_handlers_compute_on_values() {
    let router = Routes::new()
        .with_json("/echo", |v: Value| Ok(v))
        .with_json("/sum", |inp: Value| {
            Ok(Value::from(inp["x"].as_i64().unwrap() + inp["y"].as_i64().unwrap()))
        });
    let msg = request(1, "/sum", &js(r#"{"x": 2, "y": 3}"#));
    let h = router.get("/sum").expect("handler");
    let resp = h.handle(&msg).unwrap();
    assert_eq!(resp.header.ec, ErrorCode::Success.code());
    assert_eq!(resp.json_body().unwrap(), Value::from(5));
}

#[test]
fn a_json_handler_reads_beve_and_refuses_raw_bytes() {
    let router = Routes::new().with("/echo", |v: Value| Ok(v));
    let handler = router.get("/echo").unwrap();
    let beve = Message::builder().id(3).query_str("/echo").body_beve(&js("[1, 2]")).unwrap().build();
    assert_eq!(handler.handle(&beve).unwrap().json_body().unwrap(), js("[1, 2]"));

    let raw = Message::builder().id(3).body_bytes(vec![1]).body_format(BodyFormat::RawBinary).build();
    let refused = handler.handle(&raw).unwrap();
    assert_eq!(refused.error_code(), Some(ErrorCode::InvalidBody));
    assert_eq!(refused.error_message_utf8().as_deref(), Some("Expected JSON body"));

    let broken = Message::builder().body_bytes(b"{".to_vec()).body_format(BodyFormat::Json).build();
    assert!(matches!(handler.handle(&broken), Err(RepeError::Json(_))));
}

#[test]
fn handler_error_code_propagates() {
    let router = Routes::new()
        .with_json("/err", |_v: Value| Err((ErrorCode::ApplicationErrorBase, "oops".into())));
    let msg = request(2, "/err", &js("{}"));
    let h = router.get("/err").unwrap();
    let resp = h.handle(&msg).unwrap();
    assert_eq!(resp.header.ec, ErrorCode::ApplicationErrorBase.code());
    assert_eq!(resp.error_message_utf8().as_deref(), Some("oops"));
}

#[test]
fn plain_constructors_default_to_inline_execution() {
    let router = Routes::new().with_json("/x", |_| Ok(js("{}")));
    assert_eq!(router.get("/x").unwrap().execution(), Execution::Inline);
}

fn path_and_peer(ctx: &CallContext<'_>, _v: Value) -> Result<Value, (ErrorCode, String)> {
    let peer = ctx.peer().map(|p| p.peer_id().0);
    Ok(Value::from(format!("{} {:?}", ctx.method(), peer)))
}

#[test]
fn blocking_constructors_mark_off_reader_execution() {
    let router = Routes::new()
        .with_json_blocking("/j", |_| Ok(js("{}")))
        .with_json_ctx_blocking("/jc", path_and_peer)
        .with_typed_blocking("/t", typed::<i64, i64, i64, _>(|n: i64| Ok(n)))
        .with_typed_ctx_blocking("/tc", PathOf);
    for path in ["/j", "/jc", "/t", "/tc"] {
        assert_eq!(
            router.get(path).unwrap().execution(),
            Execution::OffReader,
            "{path} should be off-reader"
        );
    }
}

#[test]
fn a_function_sees_the_peer_only_in_a_context() {
    let router = Routes::new().with_json_ctx("/who", path_and_peer);
    let handler = router.get("/who").unwrap();
    let msg = request(1, "/who", &js("null"));
    assert_eq!(handler.handle(&msg).unwrap().json_body().unwrap(), Value::from("/who None"));
    let peer = PeerHandle::new(PeerId(9));
    let ctx = CallContext::new("/who", &peer);
    assert_eq!(
        handler.handle_with_ctx(&msg, &ctx).unwrap().json_body().unwrap(),
        Value::from("/who Some(9)")
    );
    let direct = JsonHandlerCtx::new(path_and_peer);
    assert_eq!(direct.handle(&msg).unwrap().json_body().unwrap(), Value::from("/who None"));
}

#[test]
fn the_context_goes_through_the_pipeline() {
    let router = Routes::new()
        .with_middleware(stage(|req, next| {
            assert_eq!(next.peer().map(|p| p.peer_id()), Some(PeerId(4)));
            assert_eq!(next.ctx().map(|c| c.method().to_string()), Some("/who".to_string()));
            next.run(req)
        }))
        .with_json_ctx("/who", path_and_peer);
    let peer = PeerHandle::new(PeerId(4));
    let ctx = CallContext::new("/who", &peer);
    let handler = router.get("/who").unwrap();
    let response = dispatch(&handler, &request(1, "/who", &js("1")), &ctx, false).unwrap();
    assert_eq!(response.json_body().unwrap(), Value::from("/who Some(4)"));
}

#[test]
fn middleware_preserves_off_reader_execution() {
    let router = Routes::new()
        .with_middleware(stage(|req, next| next.run(req)))
        .with_json_blocking("/x", |_| Ok(js("{}")));
    assert_eq!(router.get("/x").unwrap().execution(), Execution::OffReader);
}

/// A handler that looks at nothing but the request.
struct Plain<F>(F);

impl<F: Fn(&Message) -> Result<Message, RepeError>> HandlerErased for Plain<F> {
    fn handle(&self, req: &Message) -> Result<Message, RepeError> {
        (self.0)(req)
    }
    fn handle_with_ctx(&self, req: &Message, _ctx: &CallContext<'_>) -> Result<Message, RepeError> {
        (self.0)(req)
    }
    fn execution(&self) -> Execution {
        Execution::Inline
    }
}

#[test]
fn an_own_handler_is_served() {
    let shout =
        |req: &Message| create_response(req, &Value::from("hey"), BodyFormat::Utf8);
    let router = Routes::new().with_erased_handler("/shout", any(Plain(shout)));
    let handler = router.get("/shout").unwrap();
    assert_eq!(handler.execution(), Execution::Inline);
    let msg = request(1, "/shout", &js("1"));
    assert_eq!(handler.handle(&msg).unwrap().body, b"\"hey\"");
}

// ---- calls without a transport ----

fn call_request(path: &str, body: &Value, notify: bool) -> Vec<u8> {
    Message::builder()
        .id(11)
        .notify(notify)
        .query_str(path)
        .query_format(QueryFormat::JsonPointer)
        .body_json(body)
        .unwrap()
        .build()
        .to_vec()
}

fn echo_router() -> Routes {
    Routes::new().with_json("/echo", |v| Ok(v))
}

#[test]
fn call_round_trips_id_query_and_body() {
    let response = echo_router()
        .call(&call_request("/echo", &js(r#"{ "n": 3 }"#), false))
        .expect("a non-notify request produces a response");
    let message = Message::from_slice(&response).unwrap();
    assert_eq!(message.header.id, 11);
    assert_eq!(message.query_str().unwrap(), "/echo");
    assert_eq!(message.json_body().unwrap(), js(r#"{ "n": 3 }"#));
}

#[test]
fn call_returns_nothing_for_a_notify() {
    assert!(
        echo_router()
            .call(&call_request("/echo", &js("1"), true))
            .is_none()
    );
}

#[test]
fn a_notify_still_runs_its_handler() {
    let hits = Arc::new(AtomicUsize::new(0));
    let router = Routes::new().with_erased_handler("/count", any(Counting(Arc::clone(&hits))));
    assert!(router.call(&call_request("/count", &js("1"), true)).is_none());
    assert_eq!(hits.load(Ordering::SeqCst), 1);
}

#[test]
fn call_frames_method_not_found_rather_than_returning_none() {
    let response = echo_router()
        .call(&call_request("/absent", &js("1"), false))
        .expect("an unknown method is still answered");
    let message = Message::from_slice(&response).unwrap();
    assert_eq!(message.error_code(), Some(ErrorCode::MethodNotFound));
    assert_eq!(message.header.id, 11, "the id is echoed even on an error");
    assert_eq!(message.error_message_utf8().as_deref(), Some("Method not found: /absent"));
    assert_eq!(message.query_str().unwrap(), "/absent");
}

#[test]
fn call_answers_an_unparseable_frame_with_an_id_zero_error() {
    let response = echo_router()
        .call(b"too short to be a header")
        .expect("a malformed frame is answered, not swallowed");
    let message = Message::from_slice(&response).unwrap();
    assert!(message.is_error());
    assert_eq!(message.header.id, 0, "the id could not be read");
}

#[test]
fn call_rejects_a_buffer_carrying_more_than_one_frame() {
    let mut wire = call_request("/echo", &js("1"), false);
    wire.extend_from_slice(b"trailing");
    let response = echo_router().call(&wire).expect("answered");
    assert!(
        Message::from_slice(&response).unwrap().is_error(),
        "trailing bytes mean the caller miscounted; serving the prefix would hide it"
    );
}

#[test]
fn call_into_clears_the_buffer_between_requests() {
    let router = echo_router();
    let mut out = Vec::new();

    assert!(router.call_into(
        &call_request("/echo", &Value::from("a".repeat(64)), false),
        &mut out
    ));

    assert!(router.call_into(
        &call_request("/echo", &Value::from("short"), false),
        &mut out
    ));
    let message = Message::from_slice(&out).unwrap();
    assert_eq!(message.json_body().unwrap(), Value::from("short"));
    assert_eq!(
        out.len() as u64,
        message.header.length,
        "the buffer holds exactly the second response and no residue"
    );

    assert!(!router.call_into(&call_request("/echo", &js("0"), true), &mut out));
    assert!(out.is_empty());
}

#[test]
fn call_preserves_a_response_query_the_handler_set_itself() {
    let rerouting = |req: &Message| {
        let mut response = create_error_response_like(req, ErrorCode::Success, "");
        response.header.ec = 0;
        response.query = b"/elsewhere".to_vec();
        Ok(response)
    };

    let router = Routes::new().with_erased_handler("/here", any(Plain(rerouting)));
    let response = router
        .call(&call_request("/here", &js("null"), false))
        .unwrap();
    assert_eq!(
        Message::from_slice(&response).unwrap().query_str().unwrap(),
        "/elsewhere"
    );
}

#[test]
fn another_version_is_refused() {
    let mut msg = request(5, "/echo", &js("1"));
    msg.header.version = 9;
    let answer = echo_router().call(&msg.to_vec()).unwrap();
    let message = Message::from_slice(&answer).unwrap();
    assert_eq!(message.error_code(), Some(ErrorCode::VersionMismatch));
}

#[test]
fn routing_checks_version_then_query_then_path() {
    let router = echo_router();
    let served = |version: u8, format: u16, query: &[u8]| {
        let mut msg = request(5, "/echo", &js("1"));
        msg.header.version = version;
        msg.header.query_format = format;
        msg.query = query.to_vec();
        let view = MessageView { header: msg.header, query: &msg.query, body: &msg.body };
        let reply = route_request_view(&router, &view).unwrap();
        (reply.error_code().unwrap(), reply.error_message_utf8().unwrap_or_default())
    };
    assert_eq!(
        served(2, 0, b"\xff"),
        (ErrorCode::VersionMismatch, "Unsupported REPE version 2".to_string())
    );
    assert_eq!(
        served(1, 0, b"\xff"),
        (
            ErrorCode::InvalidQuery,
            "Raw binary queries are not supported by this server".to_string()
        )
    );
    assert_eq!(served(1, 77, b"/echo").0, ErrorCode::InvalidQuery);
    assert_eq!(
        served(1, 1, b"\xff"),
        (ErrorCode::InvalidQuery, "Query must be valid UTF-8".to_string())
    );
    assert_eq!(
        served(1, 1, b"/no"),
        (ErrorCode::MethodNotFound, "Method not found: /no".to_string())
    );
    assert_eq!(served(1, 1, b"/echo").0, ErrorCode::Success);
}

// ---- the fallback ----

fn dynamic_prefix(req: &Message) -> Result<Message, RepeError> {
    let path = req.query_str().unwrap_or("").to_string();
    if path == "/dynamic" || path.starts_with("/dynamic/") {
        return Ok(Message::builder()
            .id(req.header.id)
            .body_json(&Value::from(path))
            .unwrap()
            .build());
    }
    Ok(create_error_response_like(
        req,
        ErrorCode::MethodNotFound,
        &format!("Method not found: {path}"),
    ))
}

fn dynamic() -> Arc<Any> {
    any(Plain(dynamic_prefix))
}

struct Counting(Arc<AtomicUsize>);

impl HandlerErased for Counting {
    fn handle(&self, req: &Message) -> Result<Message, RepeError> {
        self.0.fetch_add(1, Ordering::SeqCst);
        Ok(Message::builder().id(req.header.id).build())
    }
    fn handle_with_ctx(&self, req: &Message, _ctx: &CallContext<'_>) -> Result<Message, RepeError> {
        self.handle(req)
    }
    fn execution(&self) -> Execution {
        Execution::Inline
    }
}

fn served_path(router: &Routes, path: &str) -> Message {
    let response = router
        .call(&call_request(path, &js("null"), false))
        .expect("a non-notify request produces a response");
    Message::from_slice(&response).unwrap()
}

#[test]
fn a_fallback_serves_a_path_no_route_claims() {
    let router = echo_router().with_fallback(dynamic());
    let message = served_path(&router, "/dynamic/thing");
    assert!(!message.is_error());
    assert_eq!(message.json_body().unwrap(), Value::from("/dynamic/thing"));
}

#[test]
fn a_fallback_does_not_shadow_a_registered_route() {
    let router = echo_router().with_fallback(dynamic());
    let message = served_path(&router, "/echo");
    assert!(!message.is_error());
    assert_eq!(message.json_body().unwrap(), js("null"));
}

/// A registry that holds one value.
struct OneFlag;

impl Registry for OneFlag {
    fn dispatch(&self, pointer: &str, _body: Option<Value>) -> Result<Value, RegistryError> {
        if pointer == "/flag" {
            Ok(js("true"))
        } else {
            Err(RegistryError {
                code: ErrorCode::MethodNotFound,
                message: format!("no entry at {pointer}"),
            })
        }
    }
    fn dispatch_with_ctx(
        &self,
        pointer: &str,
        body: Option<Value>,
        _ctx: &CallContext<'_>,
    ) -> Result<Value, RegistryError> {
        self.dispatch(pointer, body)
    }
}

/// A struct behind a mutex.
struct Locked<S>(Mutex<S>);

impl<S: RepeStruct> Lockable for Locked<S> {
    fn with_read(
        &self,
        _tokens: &Vec<String>,
    ) -> Option<Result<Option<StructResult<Option<Value>>>, LockError>> {
        None
    }
    fn lock(
        &self,
        tokens: &Vec<String>,
        body: Option<Value>,
    ) -> Result<StructResult<Option<Value>>, LockError> {
        match self.0.lock() {
            Ok(mut s) => Ok(serve_exclusive(&mut *s, tokens, body)),
            Err(e) => Err(LockError::poisoned(&e.to_string())),
        }
    }
}

fn locked<S>(s: S) -> Arc<Locked<S>> {
    Arc::new(Locked(Mutex::new(s)))
}

struct Counter {
    value: i64,
}

impl RepeStruct for Counter {
    fn repe_handle(&mut self, segments: &[&str], body: Option<Value>) -> StructResult<Option<Value>> {
        assert_eq!(segments, ["value"]);
        match body {
            Some(v) if !v.is_null() => {
                self.value = v.as_i64().unwrap();
                Ok(None)
            }
            _ => Ok(Some(Value::from(self.value))),
        }
    }
    fn repe_read(&self, segments: &[&str]) -> Option<StructResult<Option<Value>>> {
        match segments {
            ["value"] => Some(Ok(Some(Value::from(self.value)))),
            _ => None,
        }
    }
}

#[test]
fn a_struct_is_read_under_shared_access_and_changed_under_exclusive() {
    let mut counter = Counter { value: 5 };
    let at = vec!["value".to_string()];
    let read = serve_shared(&counter, &at).expect("the value can be shared").unwrap();
    assert_eq!(read, Some(Value::from(5)));
    assert!(serve_shared(&counter, &vec!["other".to_string()]).is_none());
    assert_eq!(serve_exclusive(&mut counter, &at, Some(Value::from(9))).unwrap(), None);
    assert_eq!(counter.value, 9);
}

#[test]
fn a_fallback_does_not_shadow_a_mounted_registry_or_struct() {
    let router = Routes::new()
        .with_registry("/reg", Arc::new(OneFlag))
        .with_struct_shared("/counter", locked(Counter { value: 5 }))
        .with_fallback(dynamic());

    assert!(!served_path(&router, "/reg/flag").is_error());
    assert_eq!(
        served_path(&router, "/counter/value").json_body().unwrap(),
        Value::from(5)
    );
    assert_eq!(
        served_path(&router, "/dynamic/x").json_body().unwrap(),
        Value::from("/dynamic/x")
    );
}

#[test]
fn a_struct_is_written_and_read_back() {
    let router = Routes::new().with_struct_shared("counter", locked(Counter { value: 5 }));
    let write = router.call(&call_request("/counter/value", &js("8"), false)).unwrap();
    assert_eq!(Message::from_slice(&write).unwrap().body, b"null");
    assert_eq!(served_path(&router, "/counter/value").json_body().unwrap(), Value::from(8));
}

#[test]
fn a_fallback_frames_its_own_method_not_found() {
    let router = echo_router().with_fallback(dynamic());
    let message = served_path(&router, "/nothing/here");
    assert_eq!(message.error_code(), Some(ErrorCode::MethodNotFound));
    assert_eq!(message.header.id, 11);
}

#[test]
fn a_fallback_honors_notify_semantics() {
    let router = echo_router().with_fallback(dynamic());
    assert!(
        router
            .call(&call_request("/dynamic/x", &js("null"), true))
            .is_none()
    );
}

fn blocker() -> Mw {
    stage(|req, _next| Ok(create_error_response_like(req, ErrorCode::Timeout, "blocked")))
}

#[test]
fn middleware_wraps_the_fallback_whichever_order_they_are_registered() {
    for router in [
        Routes::new().with_middleware(blocker()).with_fallback(dynamic()),
        Routes::new().with_fallback(dynamic()).with_middleware(blocker()),
    ] {
        assert_eq!(
            served_path(&router, "/dynamic/x").error_code(),
            Some(ErrorCode::Timeout),
            "the fallback is wrapped in the pipeline like any other route"
        );
    }
}

fn tag(name: &'static str, seen: Arc<Mutex<Vec<&'static str>>>) -> Mw {
    stage(move |req, next| {
        seen.lock().unwrap().push(name);
        next.run(req)
    })
}

#[test]
fn a_delegating_middleware_chain_still_reaches_the_fallback() {
    let seen = Arc::new(Mutex::new(Vec::new()));
    let router = Routes::new()
        .with_middleware(tag("outer", Arc::clone(&seen)))
        .with_fallback(dynamic())
        .with_middleware(tag("inner", Arc::clone(&seen)));

    let message = served_path(&router, "/dynamic/reached");
    assert!(!message.is_error());
    assert_eq!(
        message.json_body().unwrap(),
        Value::from("/dynamic/reached"),
        "the chain ran through to the fallback handler"
    );
    assert_eq!(*seen.lock().unwrap(), ["outer", "inner"]);
}

fn read_nope() -> Vec<u8> {
    Message::builder()
        .id(11)
        .query_str("/reg/nope")
        .query_format(QueryFormat::JsonPointer)
        .build()
        .to_vec()
}

#[test]
fn a_miss_inside_a_mounted_prefix_never_reaches_the_fallback() {
    let hits = Arc::new(AtomicUsize::new(0));
    let router = Routes::new()
        .with_registry("/reg", Arc::new(OneFlag))
        .with_fallback(any(Counting(Arc::clone(&hits))));

    let message = Message::from_slice(&router.call(&read_nope()).unwrap()).unwrap();
    assert_eq!(message.error_code(), Some(ErrorCode::MethodNotFound));
    assert_eq!(
        hits.load(Ordering::SeqCst),
        0,
        "the mount framed its own miss; the fallback was never consulted"
    );
}

// ---- mounts that fall through ----

struct RootObject;

impl RepeStruct for RootObject {
    fn repe_handle(&mut self, segments: &[&str], _body: Option<Value>) -> StructResult<Option<Value>> {
        match segments {
            ["value"] => Ok(Some(Value::from(7))),
            _ => Err(StructError::InvalidPath {
                path: path_from_segments(segments),
            }),
        }
    }
    fn repe_read(&self, _segments: &[&str]) -> Option<StructResult<Option<Value>>> {
        None
    }
}

fn root_mounted_router() -> Routes {
    Routes::new().with_struct_shared("", locked(RootObject))
}

#[test]
fn an_empty_root_mount_shadows_the_fallback_completely() {
    let hits = Arc::new(AtomicUsize::new(0));
    let router = root_mounted_router().with_fallback(any(Counting(Arc::clone(&hits))));
    assert!(served_path(&router, "/dynamic/x").is_error());
    assert_eq!(hits.load(Ordering::SeqCst), 0);
}

#[test]
fn mount_fallthrough_hands_an_empty_root_mount_s_miss_to_the_fallback() {
    let router = root_mounted_router()
        .with_fallback(dynamic())
        .with_mount_fallthrough();

    assert_eq!(served_path(&router, "/value").json_body().unwrap(), Value::from(7));
    assert_eq!(
        served_path(&router, "/dynamic/x").json_body().unwrap(),
        Value::from("/dynamic/x")
    );
    assert_eq!(
        served_path(&router, "/nowhere").error_code(),
        Some(ErrorCode::MethodNotFound)
    );
}

#[test]
fn mount_fallthrough_does_not_reorder_fixed_routes_over_mounts() {
    let router = root_mounted_router()
        .with_erased_handler("/echo", any(JsonHandler::new(|v: Value| Ok(v))))
        .with_fallback(dynamic())
        .with_mount_fallthrough();

    assert!(!served_path(&router, "/echo").is_error());
    assert_eq!(served_path(&router, "/value").json_body().unwrap(), Value::from(7));
}

#[test]
fn mount_fallthrough_applies_whichever_order_it_is_registered() {
    let build_in_order = |order: u8| {
        let mut router = Routes::new();
        for step in 0..3u8 {
            match (order + step) % 3 {
                0 => {
                    router.register_struct_shared("", locked(RootObject));
                }
                1 => router.register_fallback(dynamic()),
                _ => router.set_mount_fallthrough(true),
            }
        }
        router
    };

    for order in 0..3u8 {
        let router = build_in_order(order);
        assert_eq!(
            served_path(&router, "/dynamic/x").json_body().unwrap(),
            Value::from("/dynamic/x"),
            "registration order {order} did not compose the fallback in"
        );
        assert_eq!(served_path(&router, "/value").json_body().unwrap(), Value::from(7));
    }
}

#[test]
fn mount_fallthrough_defers_a_registry_miss_too() {
    let router = Routes::new()
        .with_registry("/reg", Arc::new(OneFlag))
        .with_fallback(dynamic())
        .with_mount_fallthrough();

    assert!(!served_path(&router, "/reg/flag").is_error());
    let message = Message::from_slice(&router.call(&read_nope()).unwrap()).unwrap();
    assert_eq!(
        message.error_code(),
        Some(ErrorCode::MethodNotFound),
        "the fallback answered, and it refuses this path too"
    );
    assert_eq!(message.error_message_utf8().as_deref(), Some("Method not found: /reg/nope"));
}

#[test]
fn mount_fallthrough_runs_the_middleware_pipeline_once() {
    let runs = Arc::new(AtomicUsize::new(0));
    let counted = Arc::clone(&runs);
    let router = root_mounted_router()
        .with_fallback(dynamic())
        .with_mount_fallthrough()
        .with_middleware(stage(move |req, next| {
            counted.fetch_add(1, Ordering::SeqCst);
            next.run(req)
        }));

    assert_eq!(
        served_path(&router, "/dynamic/x").json_body().unwrap(),
        Value::from("/dynamic/x")
    );
    assert_eq!(runs.load(Ordering::SeqCst), 1);
}

#[test]
fn mount_fallthrough_defers_through_every_dispatch_entry_point() {
    let router = root_mounted_router()
        .with_fallback(dynamic())
        .with_mount_fallthrough();
    let handler = router
        .get("/dynamic/x")
        .expect("the mount matches the root");
    let request =
        Message::from_slice(&call_request("/dynamic/x", &js("null"), false)).unwrap();

    for (entry, response) in [
        ("handle", handler.handle(&request).unwrap()),
        (
            "handle_with_ctx",
            handler
                .handle_with_ctx(&request, &CallContext::detached("/dynamic/x"))
                .unwrap(),
        ),
    ] {
        assert_eq!(
            response.json_body().unwrap(),
            Value::from("/dynamic/x"),
            "`{entry}` did not reach the fallback"
        );
    }
}

#[test]
fn a_blocking_fallback_keeps_its_off_reader_dispatch_behind_a_mount() {
    let router = root_mounted_router()
        .with_fallback_blocking(dynamic())
        .with_mount_fallthrough();
    assert_eq!(
        router.get("/dynamic/x").unwrap().execution(),
        Execution::OffReader
    );
}

#[test]
fn set_mount_fallthrough_false_gives_the_prefix_back_to_the_mount() {
    let mut router = root_mounted_router()
        .with_fallback(dynamic())
        .with_mount_fallthrough();
    assert!(!served_path(&router, "/dynamic/x").is_error());

    router.set_mount_fallthrough(false);
    assert!(
        served_path(&router, "/dynamic/x").is_error(),
        "the mount owns its whole prefix again"
    );
}

#[test]
fn mount_fallthrough_without_a_fallback_changes_nothing() {
    let router = root_mounted_router().with_mount_fallthrough();
    assert_eq!(served_path(&router, "/value").json_body().unwrap(), Value::from(7));
    assert_eq!(
        served_path(&router, "/dynamic/x").error_code(),
        Some(ErrorCode::MethodNotFound),
        "there is nothing to defer to, so the mount frames the miss"
    );
}

#[test]
fn a_blocking_fallback_dispatches_off_the_reader() {
    let router = Routes::new().with_fallback_blocking(dynamic());
    assert_eq!(
        router.get("/dynamic/x").unwrap().execution(),
        Execution::OffReader
    );
    assert_eq!(
        served_path(&router, "/dynamic/x").json_body().unwrap(),
        Value::from("/dynamic/x")
    );
}

#[test]
fn registering_a_fallback_twice_replaces_the_first() {
    let mut router = echo_router();
    router.register_fallback(dynamic());
    router.register_fallback(any(JsonHandler::new(|_: Value| Ok(Value::from("second")))));
    assert_eq!(
        served_path(&router, "/dynamic/x").json_body().unwrap(),
        Value::from("second")
    );
}

#[test]
fn a_blocking_fallback_replaces_a_plain_one() {
    let mut router = Routes::default();
    router.register_fallback(dynamic());
    router.register_fallback_blocking(dynamic());
    assert_eq!(router.get("/any").unwrap().execution(), Execution::OffReader);
    let shared = router.register_registry("/reg", Arc::new(OneFlag));
    assert_eq!(Arc::strong_count(&shared), 2);
    let _kept = router.register_middleware(stage(|req, next| next.run(req)));
    assert!(!served_path(&router, "/reg/flag").is_error());
}

// ---- serving a borrowed request ----

fn request_bytes(path: &str, body: Value) -> Vec<u8> {
    request(7, path, &body).to_vec()
}

#[test]
fn view_dispatch_returns_query_less_response_framed_with_borrowed_query() {
    let router = Routes::new().with_json("/echo", |v: Value| Ok(v));
    let wire = request_bytes("/echo", js(r#"{"x": 1}"#));
    let view = MessageView::from_slice(&wire).unwrap();

    let resp = route_request_view(&router, &view).expect("response");
    assert!(
        resp.query.is_empty(),
        "view dispatch leaves the query for the writer"
    );

    let mut out = Vec::new();
    write_view_response(&mut out, &resp, view.query);

    let framed = Message::from_slice(&out).unwrap();
    assert_eq!(framed.query, view.query);
    assert_eq!(framed.header.id, 7);
    assert_eq!(
        framed.header.length,
        HEADER_SIZE as u64 + framed.header.query_length + framed.header.body_length
    );
    assert_eq!(framed.json_body().unwrap(), js(r#"{"x": 1}"#));
}

#[test]
fn view_dispatch_unknown_method_is_query_less_error() {
    let router = Routes::new();
    let wire = request_bytes("/missing", js("{}"));
    let view = MessageView::from_slice(&wire).unwrap();

    let resp = route_request_view(&router, &view).expect("error response");
    assert!(resp.query.is_empty());
    assert_ne!(resp.header.ec, 0, "method-not-found is an error response");
}

#[test]
fn a_failed_handler_is_answered_with_its_error() {
    let router = Routes::new().with_json("/x", |v| Ok(v));
    let handler = router.get("/x").unwrap();
    let mut broken = request(3, "/x", &js("1"));
    broken.body = b"{".to_vec();
    let ctx = CallContext::detached("/x");
    let owned = dispatch(&handler, &broken, &ctx, false).unwrap();
    assert_eq!(owned.error_code(), Some(ErrorCode::ParseError));
    assert!(owned.error_message_utf8().unwrap().starts_with("json error: "));
    let view = MessageView { header: broken.header, query: &broken.query, body: &broken.body };
    let borrowed = dispatch_view(&handler, &view, &ctx, false).unwrap();
    assert_eq!(borrowed.body, owned.body);
    assert!(dispatch_view(&handler, &view, &ctx, true).is_none());
}

#[test]
fn a_server_keeps_its_settings() {
    let mut server = Server::new(echo_router())
        .read_timeout(Some(5))
        .write_timeout(None)
        .tcp_nodelay(false);
    assert!(!server.is_running());
    server.start();
    assert!(server.is_running());
    server.stop();
    assert!(!server.is_running());
    assert!(server.router().get("/echo").is_some());
}

#[test]
fn a_connection_answers_what_it_reads() {
    let router = echo_router();
    let step = |event| connection_step(&router, event);
    let sent = match step(ConnectionEvent::Frame(call_request("/echo", &js("1"), false))) {
        ConnectionStep::Send(bytes) => bytes,
        _ => panic!("expected a response"),
    };
    let m = Message::from_slice_exact(&sent).unwrap();
    assert_eq!(m.header.id, 11);
    assert_eq!(m.query, b"/echo");
    assert_eq!(m.body, b"1");
    assert!(matches!(
        step(ConnectionEvent::Frame(call_request("/echo", &js("1"), true))),
        ConnectionStep::ReadOn
    ));
    assert!(matches!(
        step(ConnectionEvent::Frame(vec![1, 2, 3])),
        ConnectionStep::Fail(RepeError::InvalidHeaderLength(3))
    ));
    assert!(matches!(
        step(ConnectionEvent::Failed(RepeError::io(IoKind::UnexpectedEof, "end"))),
        ConnectionStep::Finish
    ));
    assert!(matches!(
        step(ConnectionEvent::Failed(RepeError::io(IoKind::BrokenPipe, "gone"))),
        ConnectionStep::Fail(RepeError::Io(_))
    ));
}
