//! Request handlers and the middleware in front of them.
//!
//! What a handler may answer is the relation [`HandlerErased::answers`]: it is
//! the handler's own, and what is composed of handlers is described by theirs.

use crate::codec;
use crate::codec::{parse_beve, parse_json};
use crate::constants::{BodyFormat, ErrorCode, TypedFormat};
use crate::error::{ErrorModel, RepeError};
use crate::message;
use crate::message::{
    create_response_unstamped, error_response, Header, Message,
    MessageModel, MessageView,
};
use crate::peer::{CallContext, CtxModel, PeerHandle};
use crate::text::utf8_text;
use serde_json::Value;
use std::sync::Arc;
use vstd::prelude::*;

verus! {

/// Where a server should run a handler.
#[derive(Debug, Clone, Copy, PartialEq, Eq, Structural)]
pub enum Execution {
    /// On the task that reads the connection, one request at a time.
    Inline,
    /// On a thread of its own, so that the reader stays free while the handler
    /// runs or waits.
    OffReader,
}

/// What a handler comes to: a response, or an error that the dispatch layer
/// turns into one.
pub type Outcome = Result<MessageModel, ErrorModel>;

/// A request handler.
///
/// A response is echoed the query of its request by the dispatch layer: a
/// handler leaves the query empty, and one that sets it itself keeps it.
pub trait HandlerErased {
    /// Whether `out` is a possible outcome of `req`, called in `ctx` or without
    /// a context. A handler that does not say may answer anything.
    open spec fn answers(&self, req: MessageModel, ctx: Option<CtxModel>, out: Outcome) -> bool {
        true
    }

    /// Where the handler wants to run.
    open spec fn runs(&self) -> Execution {
        Execution::Inline
    }

    /// Handles a request without a context.
    fn handle(&self, req: &Message) -> (r: Result<Message, RepeError>)
        ensures
            self.answers(req@, None, message::outcome(r)),
    ;

    /// Handles a request in a context.
    fn handle_with_ctx(&self, req: &Message, ctx: &CallContext<'_>) -> (r: Result<
        Message,
        RepeError,
    >)
        ensures
            self.answers(req@, Some(ctx@), message::outcome(r)),
    ;

    /// Handles a request that is borrowed from a receive buffer.
    fn handle_view(&self, view: &MessageView<'_>, ctx: &CallContext<'_>) -> (r: Result<
        Message,
        RepeError,
    >)
        ensures
            self.answers(view@, Some(ctx@), message::outcome(r)),
    {
        self.handle_with_ctx(&view.to_message(), ctx)
    }

    /// Where the handler wants to run.
    fn execution(&self) -> (e: Execution)
        ensures
            e == self.runs(),
    ;
}

/// A shared handler is a handler.
impl<X: HandlerErased> HandlerErased for Arc<X> {
    open spec fn answers(&self, req: MessageModel, ctx: Option<CtxModel>, out: Outcome) -> bool {
        (**self).answers(req, ctx, out)
    }

    open spec fn runs(&self) -> Execution {
        (**self).runs()
    }

    fn handle(&self, req: &Message) -> (r: Result<Message, RepeError>) {
        (**self).handle(req)
    }

    fn handle_with_ctx(&self, req: &Message, ctx: &CallContext<'_>) -> (r: Result<
        Message,
        RepeError,
    >) {
        (**self).handle_with_ctx(req, ctx)
    }

    fn handle_view(&self, view: &MessageView<'_>, ctx: &CallContext<'_>) -> (r: Result<
        Message,
        RepeError,
    >) {
        (**self).handle_view(view, ctx)
    }

    fn execution(&self) -> (e: Execution) {
        (**self).execution()
    }
}

/// Runs another handler off the reader, and is it otherwise.
pub struct OffReaderHandler<X>(pub X);

impl<X: HandlerErased> HandlerErased for OffReaderHandler<X> {
    open spec fn answers(&self, req: MessageModel, ctx: Option<CtxModel>, out: Outcome) -> bool {
        self.0.answers(req, ctx, out)
    }

    open spec fn runs(&self) -> Execution {
        Execution::OffReader
    }

    fn handle(&self, req: &Message) -> (r: Result<Message, RepeError>) {
        self.0.handle(req)
    }

    fn handle_with_ctx(&self, req: &Message, ctx: &CallContext<'_>) -> (r: Result<
        Message,
        RepeError,
    >) {
        self.0.handle_with_ctx(req, ctx)
    }

    fn handle_view(&self, view: &MessageView<'_>, ctx: &CallContext<'_>) -> (r: Result<
        Message,
        RepeError,
    >) {
        self.0.handle_view(view, ctx)
    }

    fn execution(&self) -> (e: Execution) {
        Execution::OffReader
    }
}

// ---- JSON handlers ----

/// The text of a query, or none where it is not text.
pub open spec fn query_text(query: Seq<u8>) -> Seq<char> {
    if vstd::utf8::valid_utf8(query) {
        vstd::utf8::decode_utf8(query)
    } else {
        Seq::empty()
    }
}

/// The text of the query of a request, or none where it is not text.
pub fn query_or_empty(req: &Message) -> (s: &str)
    ensures
        s@ == query_text(req.query@),
{
    match utf8_text(req.query.as_slice()) {
        Some(s) => s,
        None => {
            proof {
                reveal_strlit("");
                assert(""@ =~= Seq::<char>::empty());
            }
            ""
        },
    }
}

/// How the parameter of a request is written: text is read as JSON, and a body
/// in any other format than JSON or BEVE is refused.
pub open spec fn param_format(body_format: u16) -> Option<TypedFormat> {
    match BodyFormat::of_wire(body_format) {
        Some(BodyFormat::Json) | Some(BodyFormat::Utf8) => Some(TypedFormat::Json),
        Some(BodyFormat::Beve) => Some(TypedFormat::Beve),
        _ => None,
    }
}

/// How the parameter of a request is written, or the reply to a body that is
/// refused.
pub fn decode_param_format(header: &Header) -> (r: Result<TypedFormat, Message>)
    ensures
        match param_format(header.body_format) {
            Some(f) => r == Ok::<TypedFormat, Message>(f),
            None => r matches Err(m) && m@ == message::error_reply(
                *header,
                ErrorCode::InvalidBody,
                "Expected JSON body"@,
            ),
        },
{
    match BodyFormat::from_code(header.body_format) {
        Some(BodyFormat::Json) | Some(BodyFormat::Utf8) => Ok(TypedFormat::Json),
        Some(BodyFormat::Beve) => Ok(TypedFormat::Beve),
        _ => Err(error_response(header, ErrorCode::InvalidBody, "Expected JSON body")),
    }
}

/// The value in the body of a request, the reply to a body in another format,
/// or the error of a body that cannot be parsed.
pub open spec fn json_param(header: Header, body: Seq<u8>) -> Result<
    Result<Value, MessageModel>,
    ErrorModel,
> {
    match param_format(header.body_format) {
        Some(TypedFormat::Json) => match codec::json_parsed(body) {
            Ok(v) => Ok(Ok(v)),
            Err(m) => Err(ErrorModel::Json(m)),
        },
        Some(TypedFormat::Beve) => match codec::beve_parsed(body) {
            Ok(v) => Ok(Ok(v)),
            Err(m) => Err(ErrorModel::Beve(m)),
        },
        None => Ok(
            Err(message::error_reply(header, ErrorCode::InvalidBody, "Expected JSON body"@)),
        ),
    }
}

/// What decoding a parameter came to.
pub open spec fn param_outcome(r: Result<Result<Value, Message>, RepeError>) -> Result<
    Result<Value, MessageModel>,
    ErrorModel,
> {
    match r {
        Ok(Ok(v)) => Ok(Ok(v)),
        Ok(Err(m)) => Ok(Err(m@)),
        Err(e) => Err(e@),
    }
}

/// Decodes the value in the body of a request: JSON text, also where it is
/// framed as plain text, or BEVE.
pub fn decode_json_body(header: &Header, body: &[u8]) -> (r: Result<
    Result<Value, Message>,
    RepeError,
>)
    ensures
        param_outcome(r) == json_param(*header, body@),
{
    match decode_param_format(header) {
        Ok(TypedFormat::Json) => match parse_json(body) {
            Ok(v) => Ok(Ok(v)),
            Err(m) => Err(RepeError::Json(m)),
        },
        Ok(TypedFormat::Beve) => match parse_beve(body) {
            Ok(v) => Ok(Ok(v)),
            Err(m) => Err(RepeError::Beve(m)),
        },
        Err(reply) => Ok(Err(reply)),
    }
}

/// Decodes the value in the body of a request.
pub fn decode_json_param(req: &Message) -> (r: Result<Result<Value, Message>, RepeError>)
    ensures
        param_outcome(r) == json_param(req.header, req.body@),
{
    decode_json_body(&req.header, req.body.as_slice())
}

/// Decodes the value in the body of a borrowed request.
pub fn decode_json_param_view(view: &MessageView<'_>) -> (r: Result<
    Result<Value, Message>,
    RepeError,
>)
    ensures
        param_outcome(r) == json_param(view.header, view.body@),
{
    decode_json_body(&view.header, view.body)
}

/// What a JSON function came to, as the outcome of its request: the value as
/// JSON, or the error that it chose.
pub open spec fn json_outcome(header: Header, res: Result<Value, (ErrorCode, String)>) -> Outcome {
    match res {
        Ok(value) => message::value_reply(header, value, BodyFormat::Json),
        Err(e) => Ok(message::error_reply(header, e.0, e.1@)),
    }
}

/// Turns what a JSON function came to into the outcome of its request.
pub fn finish_json(header: &Header, res: Result<Value, (ErrorCode, String)>) -> (r: Result<
    Message,
    RepeError,
>)
    ensures
        message::outcome(r) == json_outcome(*header, res),
{
    match res {
        Ok(value) => create_response_unstamped(header, &value, BodyFormat::Json),
        Err(e) => Ok(error_response(header, e.0, e.1.as_str())),
    }
}

/// Whether `out` is what a call of `f` with `v` may come to.
pub open spec fn function_gives<F: Fn(Value) -> Result<Value, (ErrorCode, String)>>(
    f: F,
    v: Value,
    header: Header,
    out: Outcome,
) -> bool {
    exists|res: Result<Value, (ErrorCode, String)>| #[trigger]
        call_ensures(f, (v,), res) && out == json_outcome(header, res)
}

/// A function from value to value, served as a handler.
pub struct JsonHandler<F: Fn(Value) -> Result<Value, (ErrorCode, String)>> {
    f: F,
}

impl<F: Fn(Value) -> Result<Value, (ErrorCode, String)>> JsonHandler<F> {
    /// The function takes any value.
    #[verifier::type_invariant]
    closed spec fn callable(self) -> bool {
        forall|v: Value| call_requires(self.f, (v,))
    }

    /// Serves `f`, which has to take any value.
    pub fn new(f: F) -> (h: JsonHandler<F>)
        requires
            forall|v: Value| call_requires(f, (v,)),
        ensures
            h.function() == f,
    {
        JsonHandler { f }
    }

    /// The function that is served.
    pub closed spec fn function(self) -> F {
        self.f
    }
}

impl<F: Fn(Value) -> Result<Value, (ErrorCode, String)>> HandlerErased for JsonHandler<F> {
    open spec fn answers(&self, req: MessageModel, ctx: Option<CtxModel>, out: Outcome) -> bool {
        match json_param(req.header, req.body) {
            Err(e) => out == Err::<MessageModel, ErrorModel>(e),
            Ok(Err(reply)) => out == Ok::<MessageModel, ErrorModel>(reply),
            Ok(Ok(v)) => function_gives(self.function(), v, req.header, out),
        }
    }

    open spec fn runs(&self) -> Execution {
        Execution::Inline
    }

    fn handle(&self, req: &Message) -> (r: Result<Message, RepeError>) {
        proof {
            use_type_invariant(self);
        }
        let param = match decode_json_param(req) {
            Err(e) => return Err(e),
            Ok(Err(reply)) => return Ok(reply),
            Ok(Ok(v)) => v,
        };
        let ghost v = param;
        let res = (self.f)(param);
        let ghost came = res;
        let r = finish_json(&req.header, res);
        assert(call_ensures(self.function(), (v,), came));
        assert(function_gives(self.function(), v, req.header, message::outcome(r)));
        r
    }

    fn handle_with_ctx(&self, req: &Message, ctx: &CallContext<'_>) -> (r: Result<
        Message,
        RepeError,
    >) {
        self.handle(req)
    }

    fn handle_view(&self, view: &MessageView<'_>, ctx: &CallContext<'_>) -> (r: Result<
        Message,
        RepeError,
    >) {
        proof {
            use_type_invariant(self);
        }
        let param = match decode_json_param_view(view) {
            Err(e) => return Err(e),
            Ok(Err(reply)) => return Ok(reply),
            Ok(Ok(v)) => v,
        };
        let ghost v = param;
        let res = (self.f)(param);
        let ghost came = res;
        let r = finish_json(&view.header, res);
        assert(call_ensures(self.function(), (v,), came));
        assert(function_gives(self.function(), v, view.header, message::outcome(r)));
        r
    }

    fn execution(&self) -> (e: Execution) {
        Execution::Inline
    }
}

/// Whether `out` is what a call of `f` with `v` in `ctx` may come to.
pub open spec fn function_gives_in<
    F: Fn(&CallContext<'_>, Value) -> Result<Value, (ErrorCode, String)>,
>(f: F, ctx: CtxModel, v: Value, header: Header, out: Outcome) -> bool {
    exists|c: &CallContext<'_>, res: Result<Value, (ErrorCode, String)>| #[trigger]
        call_ensures(f, (c, v), res) && c@ == ctx && out == json_outcome(header, res)
}

/// A function from context and value to value, served as a handler.
pub struct JsonHandlerCtx<
    F: Fn(&CallContext<'_>, Value) -> Result<Value, (ErrorCode, String)>,
> {
    f: F,
}

impl<
    F: Fn(&CallContext<'_>, Value) -> Result<Value, (ErrorCode, String)>,
> JsonHandlerCtx<F> {
    /// The function takes any context and value.
    #[verifier::type_invariant]
    closed spec fn callable(self) -> bool {
        forall|c: &CallContext<'_>, v: Value| call_requires(self.f, (c, v))
    }

    /// Serves `f`, which has to take any context and value.
    pub fn new(f: F) -> (h: JsonHandlerCtx<F>)
        requires
            forall|c: &CallContext<'_>, v: Value| call_requires(f, (c, v)),
        ensures
            h.function() == f,
    {
        JsonHandlerCtx { f }
    }

    /// The function that is served.
    pub closed spec fn function(self) -> F {
        self.f
    }
}

impl<
    F: Fn(&CallContext<'_>, Value) -> Result<Value, (ErrorCode, String)>,
> HandlerErased for JsonHandlerCtx<F> {
    open spec fn answers(&self, req: MessageModel, ctx: Option<CtxModel>, out: Outcome) -> bool {
        let at = match ctx {
            Some(c) => c,
            None => CtxModel { method: query_text(req.query), peer: None },
        };
        match json_param(req.header, req.body) {
            Err(e) => out == Err::<MessageModel, ErrorModel>(e),
            Ok(Err(reply)) => out == Ok::<MessageModel, ErrorModel>(reply),
            Ok(Ok(v)) => function_gives_in(self.function(), at, v, req.header, out),
        }
    }

    open spec fn runs(&self) -> Execution {
        Execution::Inline
    }

    fn handle(&self, req: &Message) -> (r: Result<Message, RepeError>) {
        let path = query_or_empty(req);
        let ctx = CallContext::detached(path);
        self.handle_with_ctx(req, &ctx)
    }

    fn handle_with_ctx(&self, req: &Message, ctx: &CallContext<'_>) -> (r: Result<
        Message,
        RepeError,
    >) {
        proof {
            use_type_invariant(self);
        }
        let param = match decode_json_param(req) {
            Err(e) => return Err(e),
            Ok(Err(reply)) => return Ok(reply),
            Ok(Ok(v)) => v,
        };
        let ghost v = param;
        let res = (self.f)(ctx, param);
        let ghost came = res;
        let r = finish_json(&req.header, res);
        assert(call_ensures(self.function(), (ctx, v), came));
        assert(function_gives_in(self.function(), ctx@, v, req.header, message::outcome(r)));
        r
    }

    fn execution(&self) -> (e: Execution) {
        Execution::Inline
    }
}

// ---- middleware ----

/// What is left of a pipeline: the middleware still to run, and the handler
/// behind it.
pub struct Next<'a, H, M> {
    middlewares: &'a [Arc<M>],
    handler: &'a H,
    ctx: Option<&'a CallContext<'a>>,
    rest: Ghost<spec_fn(MessageModel, Outcome) -> bool>,
}

impl<'a, H, M> Next<'a, H, M> {
    /// The context of the call, if there is one.
    pub closed spec fn context(&self) -> Option<CtxModel> {
        match self.ctx {
            Some(c) => Some(c@),
            None => None,
        }
    }

    /// What the rest of the pipeline may answer.
    pub closed spec fn continuation(&self) -> spec_fn(MessageModel, Outcome) -> bool {
        self.rest@
    }

    /// The stages that are still to run.
    pub closed spec fn stages(&self) -> Seq<Arc<M>> {
        self.middlewares@
    }

    /// The handler behind the stages.
    pub closed spec fn target(&self) -> H {
        *self.handler
    }

    /// The context of the call. Only a server that knows its peers attaches
    /// one.
    pub fn ctx(&self) -> (c: Option<&CallContext<'a>>)
        ensures
            c is Some == self.context() is Some,
            c matches Some(x) ==> self.context() == Some(x@),
    {
        self.ctx
    }

    /// The calling peer, if the context names one.
    pub fn peer(&self) -> (p: Option<&PeerHandle>)
        ensures
            p is Some == (self.context() matches Some(c) && c.peer is Some),
            p matches Some(h) ==> self.context()->0.peer == Some(*h),
    {
        match self.ctx {
            Some(c) => c.peer(),
            None => None,
        }
    }
}

/// A stage in front of a handler. It may answer itself, or pass the request on.
pub trait Middleware<H: HandlerErased>: Sized {
    /// Whether `out` is a possible outcome of `req`, where `next` says what the
    /// rest of the pipeline may answer.
    open spec fn passes(
        &self,
        req: MessageModel,
        ctx: Option<CtxModel>,
        next: spec_fn(MessageModel, Outcome) -> bool,
        out: Outcome,
    ) -> bool {
        true
    }

    fn handle(&self, req: &Message, next: Next<'_, H, Self>) -> (r: Result<Message, RepeError>)
        ensures
            self.passes(req@, next.context(), next.continuation(), message::outcome(r)),
    ;
}

/// What a pipeline may answer: the first stage decides, knowing what the rest
/// may answer, and behind the last stage stands the handler.
pub open spec fn chain<H: HandlerErased, M: Middleware<H>>(
    middlewares: Seq<Arc<M>>,
    handler: H,
    ctx: Option<CtxModel>,
) -> spec_fn(MessageModel, Outcome) -> bool
    decreases middlewares.len(),
{
    if middlewares.len() == 0 {
        |req: MessageModel, out: Outcome| handler.answers(req, ctx, out)
    } else {
        let rest = chain(middlewares.drop_first(), handler, ctx);
        |req: MessageModel, out: Outcome| middlewares[0].passes(req, ctx, rest, out)
    }
}

impl<'a, H: HandlerErased, M: Middleware<H>> Next<'a, H, M> {
    /// A pipeline without a context.
    fn new(middlewares: &'a [Arc<M>], handler: &'a H) -> (n: Next<'a, H, M>)
        ensures
            n.stages() == middlewares@,
            n.target() == *handler,
            n.context() is None,
            n.continuation() == chain(n.stages(), n.target(), n.context()),
    {
        Next { middlewares, handler, ctx: None, rest: Ghost(chain(middlewares@, *handler, None)) }
    }

    /// A pipeline in a context.
    fn with_ctx(middlewares: &'a [Arc<M>], handler: &'a H, ctx: &'a CallContext<'a>) -> (n: Next<
        'a,
        H,
        M,
    >)
        ensures
            n.stages() == middlewares@,
            n.target() == *handler,
            n.context() == Some(ctx@),
            n.continuation() == chain(n.stages(), n.target(), n.context()),
    {
        Next {
            middlewares,
            handler,
            ctx: Some(ctx),
            rest: Ghost(chain(middlewares@, *handler, Some(ctx@))),
        }
    }

    /// Goes on with the next stage, or with the handler behind the last. The
    /// context goes along.
    pub fn run(self, req: &Message) -> (r: Result<Message, RepeError>)
        ensures
            chain(self.stages(), self.target(), self.context())(req@, message::outcome(r)),
    {
        if self.middlewares.len() > 0 {
            let first = &self.middlewares[0];
            let rest = vstd::slice::slice_subrange(self.middlewares, 1, self.middlewares.len());
            let next = Next {
                middlewares: rest,
                handler: self.handler,
                ctx: self.ctx,
                rest: Ghost(chain(rest@, *self.handler, self.context())),
            };
            assert(rest@ =~= self.stages().drop_first());
            first.handle(req, next)
        } else {
            match self.ctx {
                Some(ctx) => self.handler.handle_with_ctx(req, ctx),
                None => self.handler.handle(req),
            }
        }
    }
}

/// A handler behind middleware. It runs where the handler wants to run.
pub struct MiddlewarePipeline<H, M> {
    pub handler: H,
    pub middlewares: Arc<Vec<Arc<M>>>,
}

impl<H: HandlerErased, M: Middleware<H>> HandlerErased for MiddlewarePipeline<H, M> {
    open spec fn answers(&self, req: MessageModel, ctx: Option<CtxModel>, out: Outcome) -> bool {
        chain(self.middlewares@, self.handler, ctx)(req, out)
    }

    open spec fn runs(&self) -> Execution {
        self.handler.runs()
    }

    fn handle(&self, req: &Message) -> (r: Result<Message, RepeError>) {
        Next::new(self.middlewares.as_slice(), &self.handler).run(req)
    }

    fn handle_with_ctx(&self, req: &Message, ctx: &CallContext<'_>) -> (r: Result<
        Message,
        RepeError,
    >) {
        Next::with_ctx(self.middlewares.as_slice(), &self.handler, ctx).run(req)
    }

    fn execution(&self) -> (e: Execution) {
        self.handler.execution()
    }
}

// ---- a mount that defers to a fallback ----

/// Whether an outcome says that there is no such method.
pub open spec fn is_miss(out: Outcome) -> bool {
    match out {
        Ok(m) => m.header.ec == ErrorCode::MethodNotFound.wire(),
        Err(e) => e.error_code() == ErrorCode::MethodNotFound,
    }
}

/// Whether an outcome says that there is no such method.
fn declined(r: &Result<Message, RepeError>) -> (b: bool)
    ensures
        b == is_miss(message::outcome(*r)),
{
    match r {
        Ok(m) => m.header.ec == ErrorCode::MethodNotFound.code(),
        Err(e) => e.to_error_code() == ErrorCode::MethodNotFound,
    }
}

/// A mount, and the fallback that gets what the mount misses.
pub struct MountFallthrough<X> {
    pub mount: X,
    pub fallback: X,
}

/// Whether `out` may come of asking `mount` first, and `fallback` where the
/// mount has no such method.
pub open spec fn or_fallback<X: HandlerErased>(
    mount: X,
    fallback: X,
    req: MessageModel,
    ctx: Option<CtxModel>,
    out: Outcome,
) -> bool {
    ||| mount.answers(req, ctx, out) && !is_miss(out)
    ||| fallback.answers(req, ctx, out) && exists|miss: Outcome| #[trigger]
        mount.answers(req, ctx, miss) && is_miss(miss)
}

impl<X: HandlerErased> HandlerErased for MountFallthrough<X> {
    open spec fn answers(&self, req: MessageModel, ctx: Option<CtxModel>, out: Outcome) -> bool {
        or_fallback(self.mount, self.fallback, req, ctx, out)
    }

    /// Which of the two will run is not known in advance, so the stronger wish
    /// counts.
    open spec fn runs(&self) -> Execution {
        if self.mount.runs() == Execution::Inline && self.fallback.runs() == Execution::Inline {
            Execution::Inline
        } else {
            Execution::OffReader
        }
    }

    fn handle(&self, req: &Message) -> (r: Result<Message, RepeError>) {
        let r = self.mount.handle(req);
        if declined(&r) {
            return self.fallback.handle(req);
        }
        r
    }

    fn handle_with_ctx(&self, req: &Message, ctx: &CallContext<'_>) -> (r: Result<
        Message,
        RepeError,
    >) {
        let r = self.mount.handle_with_ctx(req, ctx);
        if declined(&r) {
            return self.fallback.handle_with_ctx(req, ctx);
        }
        r
    }

    fn handle_view(&self, view: &MessageView<'_>, ctx: &CallContext<'_>) -> (r: Result<
        Message,
        RepeError,
    >) {
        let r = self.mount.handle_view(view, ctx);
        if declined(&r) {
            return self.fallback.handle_view(view, ctx);
        }
        r
    }

    fn execution(&self) -> (e: Execution) {
        match (self.mount.execution(), self.fallback.execution()) {
            (Execution::Inline, Execution::Inline) => Execution::Inline,
            _ => Execution::OffReader,
        }
    }
}

/// A miss of a mount is not answered by the mount: where every outcome of the
/// mount is a miss, the fallback answers; where none is, the mount does.
pub proof fn a_miss_goes_to_the_fallback<X: HandlerErased>(
    mount: X,
    fallback: X,
    req: MessageModel,
    ctx: Option<CtxModel>,
    out: Outcome,
)
    requires
        or_fallback(mount, fallback, req, ctx, out),
    ensures
        (forall|o: Outcome| #[trigger] mount.answers(req, ctx, o) ==> is_miss(o))
            ==> fallback.answers(req, ctx, out),
        (forall|o: Outcome| #[trigger] mount.answers(req, ctx, o) ==> !is_miss(o))
            ==> mount.answers(req, ctx, out),
        is_miss(out) ==> fallback.answers(req, ctx, out),
{
}

/// The parameter of a request is read by the format of its body: JSON and text as
/// JSON, BEVE as BEVE. Other formats are refused, and a body that cannot be read
/// is the error of its codec.
pub proof fn a_parameter_is_read_by_its_format(header: Header, body: Seq<u8>)
    ensures
        header.body_format == 2 || header.body_format == 3 ==> json_param(header, body)
            == match codec::json_parsed(body) {
            Ok(v) => Ok::<Result<Value, MessageModel>, ErrorModel>(Ok(v)),
            Err(m) => Err(ErrorModel::Json(m)),
        },
        header.body_format == 1 ==> json_param(header, body) == match codec::beve_parsed(body) {
            Ok(v) => Ok::<Result<Value, MessageModel>, ErrorModel>(Ok(v)),
            Err(m) => Err(ErrorModel::Beve(m)),
        },
        header.body_format == 0 || header.body_format > 3 ==> (json_param(header, body)
            matches Ok(Err(reply)) && reply.header.id == header.id && reply.header.ec
            == ErrorCode::InvalidBody.wire()),
        param_format(header.body_format) == Some(TypedFormat::Json) <==> header.body_format == 2
            || header.body_format == 3,
        param_format(header.body_format) == Some(TypedFormat::Beve) <==> header.body_format == 1,
{
}

/// What a function returns reaches the one who called it: its value as JSON, or
/// its own error, under the code and in the words that it chose.
pub proof fn a_function_is_answered_with_what_it_returned(
    header: Header,
    res: Result<Value, (ErrorCode, String)>,
)
    ensures
        res matches Ok(value) ==> json_outcome(header, res) == message::value_reply(
            header,
            value,
            BodyFormat::Json,
        ),
        res matches Err(e) ==> (json_outcome(header, res) matches Ok(m) && m.header.id == header.id
            && m.header.ec == e.0.wire() && vstd::utf8::decode_utf8(m.body) == e.1@),
{
    if let Err(e) = res {
        vstd::utf8::encode_utf8_decode_utf8(e.1@);
    }
}

/// A request whose parameter can be read calls the function with it.
pub proof fn a_request_calls_the_function<F: Fn(Value) -> Result<Value, (ErrorCode, String)>>(
    h: JsonHandler<F>,
    req: MessageModel,
    ctx: Option<CtxModel>,
    out: Outcome,
    v: Value,
)
    requires
        h.answers(req, ctx, out),
        json_param(req.header, req.body) == Ok::<Result<Value, MessageModel>, ErrorModel>(Ok(v)),
    ensures
        exists|res: Result<Value, (ErrorCode, String)>| #[trigger]
            call_ensures(h.function(), (v,), res) && out == json_outcome(req.header, res),
{
    assert(function_gives(h.function(), v, req.header, out));
}

/// Without middleware the handler answers; with it the first stage does, and what
/// it may pass the request on to is the pipeline of the others.
pub proof fn a_pipeline_runs_its_stages_in_order<H: HandlerErased, M: Middleware<H>>(
    stages: Seq<Arc<M>>,
    stage: Arc<M>,
    handler: H,
    ctx: Option<CtxModel>,
    req: MessageModel,
    out: Outcome,
)
    ensures
        chain(Seq::<Arc<M>>::empty(), handler, ctx)(req, out) == handler.answers(req, ctx, out),
        chain(seq![stage] + stages, handler, ctx)(req, out) == stage.passes(
            req,
            ctx,
            chain(stages, handler, ctx),
            out,
        ),
{
    assert((seq![stage] + stages).drop_first() =~= stages);
}

/// A miss is an outcome that says that there is no such method, and no other.
pub proof fn a_miss_says_that_there_is_no_such_method(m: MessageModel, e: ErrorModel)
    ensures
        is_miss(Ok::<MessageModel, ErrorModel>(m)) <==> m.header.ec == 6,
        is_miss(Err::<MessageModel, ErrorModel>(e)) <==> (e matches ErrorModel::ServerError {
            code,
            ..
        } && code == ErrorCode::MethodNotFound),
{
}

/// A handler that is moved off the reader answers as before, and a mount with a
/// fallback runs off the reader where either of them does.
pub proof fn moving_a_handler_changes_where_it_runs_only<X: HandlerErased>(
    x: X,
    f: MountFallthrough<X>,
    req: MessageModel,
    ctx: Option<CtxModel>,
    out: Outcome,
)
    ensures
        OffReaderHandler(x).answers(req, ctx, out) == x.answers(req, ctx, out),
        OffReaderHandler(x).runs() == Execution::OffReader,
        f.runs() == Execution::OffReader <==> f.mount.runs() == Execution::OffReader
            || f.fallback.runs() == Execution::OffReader,
{
}

/// A function that takes the context is called in the context of the request:
/// the one that was handed over, or one without a peer that names the method.
pub proof fn a_request_calls_the_function_in_its_context<
    F: Fn(&CallContext<'_>, Value) -> Result<Value, (ErrorCode, String)>,
>(h: JsonHandlerCtx<F>, req: MessageModel, ctx: CtxModel, out: Outcome, v: Value)
    requires
        json_param(req.header, req.body) == Ok::<Result<Value, MessageModel>, ErrorModel>(Ok(v)),
    ensures
        h.answers(req, Some(ctx), out) ==> exists|
            c: &CallContext<'_>,
            res: Result<Value, (ErrorCode, String)>,
        | #[trigger]
            call_ensures(h.function(), (c, v), res) && c@ == ctx && out == json_outcome(
                req.header,
                res,
            ),
        h.answers(req, None, out) ==> exists|
            c: &CallContext<'_>,
            res: Result<Value, (ErrorCode, String)>,
        | #[trigger]
            call_ensures(h.function(), (c, v), res) && c@.method == query_text(req.query)
                && c@.peer is None && out == json_outcome(req.header, res),
{
    if h.answers(req, Some(ctx), out) {
        assert(function_gives_in(h.function(), ctx, v, req.header, out));
    }
}

} // verus!
