//! Handlers with types of their own.
//!
//! How a type is read from a body and written to one is up to the type. What is
//! decided here is which bodies are read, in which format, and what becomes of
//! what the function returns.

use crate::constants::{BodyFormat, ErrorCode, TypedFormat};
use crate::error::{ErrorModel, RepeError};
use crate::handler;
use crate::handler::{decode_param_format, query_or_empty, Execution, HandlerErased, Outcome};
use crate::message;
use crate::message::{
    create_body_response_unstamped, error_response, Header, Message, MessageModel, MessageView,
};
use crate::peer::{CallContext, CtxModel};
use vstd::prelude::*;

verus! {

// ---- typed responses ----

/// A value and the format that it is to be sent in.
pub struct TypedResponse<R> {
    value: R,
    format: BodyFormat,
}

impl<R> TypedResponse<R> {
    /// The value and its format.
    pub closed spec fn parts(self) -> (R, BodyFormat) {
        (self.value, self.format)
    }

    pub fn new(value: R, format: BodyFormat) -> (r: TypedResponse<R>)
        ensures
            r.parts() == (value, format),
    {
        TypedResponse { value, format }
    }

    pub fn json(value: R) -> (r: TypedResponse<R>)
        ensures
            r.parts() == (value, BodyFormat::Json),
    {
        TypedResponse::new(value, BodyFormat::Json)
    }

    pub fn beve(value: R) -> (r: TypedResponse<R>)
        ensures
            r.parts() == (value, BodyFormat::Beve),
    {
        TypedResponse::new(value, BodyFormat::Beve)
    }

    pub fn utf8(value: R) -> (r: TypedResponse<R>)
        ensures
            r.parts() == (value, BodyFormat::Utf8),
    {
        TypedResponse::new(value, BodyFormat::Utf8)
    }

    pub fn raw_binary(value: R) -> (r: TypedResponse<R>)
        ensures
            r.parts() == (value, BodyFormat::RawBinary),
    {
        TypedResponse::new(value, BodyFormat::RawBinary)
    }
}

/// What a typed handler may return: a value, or a value with a format.
pub trait IntoTypedResponse<R> {
    /// The value and its format.
    spec fn typed_parts(self) -> (R, BodyFormat);

    fn into_typed_response(self) -> (p: (R, BodyFormat))
        ensures
            p == self.typed_parts(),
    ;
}

impl<R> IntoTypedResponse<R> for TypedResponse<R> {
    open spec fn typed_parts(self) -> (R, BodyFormat) {
        self.parts()
    }

    fn into_typed_response(self) -> (p: (R, BodyFormat)) {
        (self.value, self.format)
    }
}

/// A bare value goes out as JSON.
impl<R> IntoTypedResponse<R> for R {
    open spec fn typed_parts(self) -> (R, BodyFormat) {
        (self, BodyFormat::Json)
    }

    fn into_typed_response(self) -> (p: (R, BodyFormat)) {
        (self, BodyFormat::Json)
    }
}

// ---- numeric arrays ----

/// First byte of a BEVE array whose payload is padded to its alignment.
pub const BEVE_ALIGNED_TYPED_ARRAY_MARKER: u8 = 0x5c;

/// The numbers of a request: borrowed from the receive buffer, or copied.
pub enum SliceInput<'a, T> {
    Borrowed(&'a [T]),
    Owned(Vec<T>),
}

impl<'a, T> SliceInput<'a, T> {
    /// The numbers.
    pub fn as_slice(&self) -> (s: &[T])
        ensures
            match *self {
                SliceInput::Borrowed(b) => s@ == b@,
                SliceInput::Owned(v) => s@ == v@,
            },
    {
        match self {
            SliceInput::Borrowed(b) => b,
            SliceInput::Owned(v) => v.as_slice(),
        }
    }
}

/// How the numbers of a request are encoded.
#[derive(Debug, Clone, Copy, PartialEq, Eq, Structural)]
pub enum SliceForm {
    /// Padded to their alignment: they can be borrowed where the buffer permits.
    Aligned,
    /// Not padded: they have to be copied.
    Regular,
}

/// How an array of numbers is encoded: its first byte tells.
pub open spec fn form_of(body: Seq<u8>) -> SliceForm {
    if body.len() > 0 && body[0] == BEVE_ALIGNED_TYPED_ARRAY_MARKER {
        SliceForm::Aligned
    } else {
        SliceForm::Regular
    }
}

/// The reply to a body that cannot be an array of numbers.
pub open spec fn not_numeric(header: Header) -> MessageModel {
    message::error_reply(header, ErrorCode::InvalidBody, "Expected BEVE typed-numeric body"@)
}

/// How the numbers of a request are encoded. An array of numbers has no form
/// but BEVE, so any other body gets an error reply.
pub fn slice_form(header: &Header, body: &[u8]) -> (r: Result<SliceForm, Message>)
    ensures
        if header.body_format == BodyFormat::Beve.wire() {
            r == Ok::<SliceForm, Message>(form_of(body@))
        } else {
            r matches Err(m) && m@ == not_numeric(*header)
        },
{
    if header.body_format != BodyFormat::Beve.code() {
        return Err(
            error_response(
                header,
                ErrorCode::InvalidBody,
                "Expected BEVE typed-numeric body",
            ),
        );
    }
    if body.len() > 0 && body[0] == BEVE_ALIGNED_TYPED_ARRAY_MARKER {
        Ok(SliceForm::Aligned)
    } else {
        Ok(SliceForm::Regular)
    }
}

// ---- what a typed function comes to ----

/// What a typed function comes to: what it returned, written, and its format;
/// or the error that it chose; or the error of a body that could not be read or
/// written.
pub type TypedResult = Result<Result<(Vec<u8>, BodyFormat), (ErrorCode, String)>, RepeError>;

/// What a [`TypedResult`] says.
pub type TypedOutcome = Result<
    Result<(Seq<u8>, BodyFormat), (ErrorCode, Seq<char>)>,
    ErrorModel,
>;

/// What a typed function came to.
pub open spec fn typed_outcome(r: TypedResult) -> TypedOutcome {
    match r {
        Ok(Ok(written)) => Ok(Ok((written.0@, written.1))),
        Ok(Err(refusal)) => Ok(Err((refusal.0, refusal.1@))),
        Err(e) => Err(e@),
    }
}

/// What a function whose result goes out in one format comes to.
pub type FixedResult = Result<Result<Vec<u8>, (ErrorCode, String)>, RepeError>;

/// The same result with its format.
pub open spec fn in_format(r: FixedResult, format: BodyFormat) -> TypedOutcome {
    match r {
        Ok(Ok(body)) => Ok(Ok((body@, format))),
        Ok(Err(refusal)) => Ok(Err((refusal.0, refusal.1@))),
        Err(e) => Err(e@),
    }
}

/// What a typed function came to, as the outcome of its request.
pub open spec fn typed_answer(header: Header, came: TypedOutcome) -> Outcome {
    match came {
        Ok(Ok(written)) => Ok(message::body_reply(header, written.0, written.1)),
        Ok(Err(refusal)) => Ok(message::error_reply(header, refusal.0, refusal.1)),
        Err(e) => Err(e),
    }
}

/// Turns what a typed function came to into the outcome of its request.
pub fn finish_typed(header: &Header, came: TypedResult) -> (r: Result<Message, RepeError>)
    ensures
        message::outcome(r) == typed_answer(*header, typed_outcome(came)),
{
    match came {
        Ok(Ok(written)) => Ok(create_body_response_unstamped(header, written.0, written.1)),
        Ok(Err(refusal)) => Ok(error_response(header, refusal.0, refusal.1.as_str())),
        Err(e) => Err(e),
    }
}

/// Gives a result its format.
fn with_format(r: FixedResult, format: BodyFormat) -> (t: TypedResult)
    ensures
        typed_outcome(t) == in_format(r, format),
{
    match r {
        Ok(Ok(body)) => Ok(Ok((body, format))),
        Ok(Err(refusal)) => Ok(Err(refusal)),
        Err(e) => Err(e),
    }
}

/// How a returned value is written: as BEVE where its format says so, and as
/// JSON text otherwise.
pub open spec fn written_as(format: BodyFormat) -> TypedFormat {
    match format {
        BodyFormat::Beve => TypedFormat::Beve,
        _ => TypedFormat::Json,
    }
}

/// How a returned value is written.
pub fn response_written_as(format: BodyFormat) -> (f: TypedFormat)
    ensures
        f == written_as(format),
{
    match format {
        BodyFormat::Beve => TypedFormat::Beve,
        _ => TypedFormat::Json,
    }
}

// ---- typed handlers ----

/// A function with types of its own.
pub trait TypedHandlerFn {
    /// What a call may come to.
    open spec fn calls(&self, format: TypedFormat, input: Seq<u8>, came: TypedOutcome) -> bool {
        true
    }

    /// Reads the parameter, calls the function and writes what it returns.
    fn call(&self, format: TypedFormat, input: &[u8]) -> (r: TypedResult)
        ensures
            self.calls(format, input@, typed_outcome(r)),
    ;
}

/// A function with types of its own that also takes the context of the call.
pub trait TypedHandlerFnCtx {
    /// What a call may come to.
    open spec fn calls_in(
        &self,
        ctx: CtxModel,
        format: TypedFormat,
        input: Seq<u8>,
        came: TypedOutcome,
    ) -> bool {
        true
    }

    /// Reads the parameter, calls the function and writes what it returns.
    fn call(&self, ctx: &CallContext<'_>, format: TypedFormat, input: &[u8]) -> (r: TypedResult)
        ensures
            self.calls_in(ctx@, format, input@, typed_outcome(r)),
    ;
}

/// An object with types of its own. What it returns goes out as JSON.
pub trait JsonTypedHandler {
    /// What a call may come to.
    open spec fn calls(&self, format: TypedFormat, input: Seq<u8>, came: TypedOutcome) -> bool {
        true
    }

    /// Reads the parameter, calls the object and writes what it returns.
    fn call(&self, format: TypedFormat, input: &[u8]) -> (r: FixedResult)
        ensures
            self.calls(format, input@, in_format(r, BodyFormat::Json)),
    ;
}

/// A function from numbers to numbers.
pub trait TypedSliceFn {
    /// What a call may come to.
    open spec fn calls(&self, form: SliceForm, input: Seq<u8>, came: TypedOutcome) -> bool {
        true
    }

    /// Reads the numbers, calls the function and writes what it returns.
    fn call(&self, form: SliceForm, input: &[u8]) -> (r: FixedResult)
        ensures
            self.calls(form, input@, in_format(r, BodyFormat::Beve)),
    ;
}

/// An object as a function.
pub struct JsonTypedAdapter<X>(pub X);

impl<X: JsonTypedHandler> TypedHandlerFn for JsonTypedAdapter<X> {
    open spec fn calls(&self, format: TypedFormat, input: Seq<u8>, came: TypedOutcome) -> bool {
        self.0.calls(format, input, came)
    }

    fn call(&self, format: TypedFormat, input: &[u8]) -> (r: TypedResult) {
        with_format(self.0.call(format, input), BodyFormat::Json)
    }
}

/// The reply to a body that a typed handler does not read.
pub open spec fn not_typed(header: Header) -> MessageModel {
    message::error_reply(header, ErrorCode::InvalidBody, "Expected JSON body"@)
}

/// Whether `out` is what a call of `f` may come to.
pub open spec fn typed_gives<F: TypedHandlerFn>(
    f: F,
    format: TypedFormat,
    header: Header,
    body: Seq<u8>,
    out: Outcome,
) -> bool {
    exists|came: TypedOutcome| #[trigger]
        f.calls(format, body, came) && out == typed_answer(header, came)
}

/// A typed function, served as a handler.
pub struct TypedHandler<F>(pub F);

impl<F: TypedHandlerFn> TypedHandler<F> {
    /// Answers a request with the given header and body.
    fn answer(&self, header: &Header, body: &[u8]) -> (r: Result<Message, RepeError>)
        ensures
            match handler::param_format(header.body_format) {
                None => message::outcome(r) == Ok::<MessageModel, ErrorModel>(not_typed(*header)),
                Some(format) => typed_gives(self.0, format, *header, body@, message::outcome(r)),
            },
    {
        match decode_param_format(header) {
            Err(reply) => Ok(reply),
            Ok(format) => {
                let came = self.0.call(format, body);
                let ghost gave = typed_outcome(came);
                let r = finish_typed(header, came);
                assert(self.0.calls(format, body@, gave));
                r
            },
        }
    }
}

impl<F: TypedHandlerFn> HandlerErased for TypedHandler<F> {
    open spec fn answers(&self, req: MessageModel, ctx: Option<CtxModel>, out: Outcome) -> bool {
        match handler::param_format(req.header.body_format) {
            None => out == Ok::<MessageModel, ErrorModel>(not_typed(req.header)),
            Some(format) => typed_gives(self.0, format, req.header, req.body, out),
        }
    }

    open spec fn runs(&self) -> Execution {
        Execution::Inline
    }

    fn handle(&self, req: &Message) -> (r: Result<Message, RepeError>) {
        self.answer(&req.header, req.body.as_slice())
    }

    fn handle_with_ctx(&self, req: &Message, ctx: &CallContext<'_>) -> (r: Result<
        Message,
        RepeError,
    >) {
        self.answer(&req.header, req.body.as_slice())
    }

    fn handle_view(&self, view: &MessageView<'_>, ctx: &CallContext<'_>) -> (r: Result<
        Message,
        RepeError,
    >) {
        self.answer(&view.header, view.body)
    }

    fn execution(&self) -> (e: Execution) {
        Execution::Inline
    }
}

/// Whether `out` is what a call of `f` in `ctx` may come to.
pub open spec fn typed_gives_in<F: TypedHandlerFnCtx>(
    f: F,
    ctx: CtxModel,
    format: TypedFormat,
    header: Header,
    body: Seq<u8>,
    out: Outcome,
) -> bool {
    exists|came: TypedOutcome| #[trigger]
        f.calls_in(ctx, format, body, came) && out == typed_answer(header, came)
}

/// A typed function that takes the context, served as a handler.
pub struct TypedHandlerCtx<F>(pub F);

impl<F: TypedHandlerFnCtx> HandlerErased for TypedHandlerCtx<F> {
    open spec fn answers(&self, req: MessageModel, ctx: Option<CtxModel>, out: Outcome) -> bool {
        let at = match ctx {
            Some(c) => c,
            None => CtxModel { method: handler::query_text(req.query), peer: None },
        };
        match handler::param_format(req.header.body_format) {
            None => out == Ok::<MessageModel, ErrorModel>(not_typed(req.header)),
            Some(format) => typed_gives_in(self.0, at, format, req.header, req.body, out),
        }
    }

    open spec fn runs(&self) -> Execution {
        Execution::Inline
    }

    fn handle(&self, req: &Message) -> (r: Result<Message, RepeError>) {
        let path = query_or_empty(req);
        let ctx = CallContext::detached(path);
        self.handle_with_ctx(req, &ctx)
    }

    fn handle_with_ctx(&self, req: &Message, ctx: &CallContext<'_>) -> (r: Result<
        Message,
        RepeError,
    >) {
        match decode_param_format(&req.header) {
            Err(reply) => Ok(reply),
            Ok(format) => {
                let came = self.0.call(ctx, format, req.body.as_slice());
                let ghost gave = typed_outcome(came);
                let r = finish_typed(&req.header, came);
                assert(self.0.calls_in(ctx@, format, req.body@, gave));
                r
            },
        }
    }

    fn execution(&self) -> (e: Execution) {
        Execution::Inline
    }
}

/// Whether `out` is what a call of `f` on numbers in the given form may come to.
pub open spec fn slice_gives<F: TypedSliceFn>(
    f: F,
    form: SliceForm,
    header: Header,
    body: Seq<u8>,
    out: Outcome,
) -> bool {
    exists|came: TypedOutcome| #[trigger]
        f.calls(form, body, came) && out == typed_answer(header, came)
}

/// A function from numbers to numbers, served as a handler. It reads the numbers
/// in the regular form.
pub struct TypedSliceHandler<F>(pub F);

impl<F: TypedSliceFn> TypedSliceHandler<F> {
    /// Answers a request with the given header and body.
    fn answer(&self, header: &Header, body: &[u8]) -> (r: Result<Message, RepeError>)
        ensures
            if header.body_format == BodyFormat::Beve.wire() {
                slice_gives(self.0, SliceForm::Regular, *header, body@, message::outcome(r))
            } else {
                message::outcome(r) == Ok::<MessageModel, ErrorModel>(not_numeric(*header))
            },
    {
        match slice_form(header, body) {
            Err(reply) => Ok(reply),
            Ok(_) => {
                let came = self.0.call(SliceForm::Regular, body);
                let ghost gave = in_format(came, BodyFormat::Beve);
                let r = finish_typed(header, with_format(came, BodyFormat::Beve));
                assert(self.0.calls(SliceForm::Regular, body@, gave));
                r
            },
        }
    }
}

impl<F: TypedSliceFn> HandlerErased for TypedSliceHandler<F> {
    open spec fn answers(&self, req: MessageModel, ctx: Option<CtxModel>, out: Outcome) -> bool {
        if req.header.body_format == BodyFormat::Beve.wire() {
            slice_gives(self.0, SliceForm::Regular, req.header, req.body, out)
        } else {
            out == Ok::<MessageModel, ErrorModel>(not_numeric(req.header))
        }
    }

    open spec fn runs(&self) -> Execution {
        Execution::Inline
    }

    fn handle(&self, req: &Message) -> (r: Result<Message, RepeError>) {
        self.answer(&req.header, req.body.as_slice())
    }

    fn handle_with_ctx(&self, req: &Message, ctx: &CallContext<'_>) -> (r: Result<
        Message,
        RepeError,
    >) {
        self.answer(&req.header, req.body.as_slice())
    }

    fn handle_view(&self, view: &MessageView<'_>, ctx: &CallContext<'_>) -> (r: Result<
        Message,
        RepeError,
    >) {
        self.answer(&view.header, view.body)
    }

    fn execution(&self) -> (e: Execution) {
        Execution::Inline
    }
}

/// A function from numbers to numbers that may borrow them, served as a handler.
/// It reads the numbers in the form that they are in.
pub struct TypedSliceRefHandler<F>(pub F);

impl<F: TypedSliceFn> TypedSliceRefHandler<F> {
    /// Answers a request with the given header and body.
    fn answer(&self, header: &Header, body: &[u8]) -> (r: Result<Message, RepeError>)
        ensures
            if header.body_format == BodyFormat::Beve.wire() {
                slice_gives(self.0, form_of(body@), *header, body@, message::outcome(r))
            } else {
                message::outcome(r) == Ok::<MessageModel, ErrorModel>(not_numeric(*header))
            },
    {
        match slice_form(header, body) {
            Err(reply) => Ok(reply),
            Ok(form) => {
                let came = self.0.call(form, body);
                let ghost gave = in_format(came, BodyFormat::Beve);
                let r = finish_typed(header, with_format(came, BodyFormat::Beve));
                assert(self.0.calls(form_of(body@), body@, gave));
                r
            },
        }
    }
}

impl<F: TypedSliceFn> HandlerErased for TypedSliceRefHandler<F> {
    open spec fn answers(&self, req: MessageModel, ctx: Option<CtxModel>, out: Outcome) -> bool {
        if req.header.body_format == BodyFormat::Beve.wire() {
            slice_gives(self.0, form_of(req.body), req.header, req.body, out)
        } else {
            out == Ok::<MessageModel, ErrorModel>(not_numeric(req.header))
        }
    }

    open spec fn runs(&self) -> Execution {
        Execution::Inline
    }

    fn handle(&self, req: &Message) -> (r: Result<Message, RepeError>) {
        self.answer(&req.header, req.body.as_slice())
    }

    fn handle_with_ctx(&self, req: &Message, ctx: &CallContext<'_>) -> (r: Result<
        Message,
        RepeError,
    >) {
        self.answer(&req.header, req.body.as_slice())
    }

    fn handle_view(&self, view: &MessageView<'_>, ctx: &CallContext<'_>) -> (r: Result<
        Message,
        RepeError,
    >) {
        self.answer(&view.header, view.body)
    }

    fn execution(&self) -> (e: Execution) {
        Execution::Inline
    }
}

/// Every response of a typed handler carries the id of its request, and the
/// function's own error code where the function refused.
pub proof fn a_typed_answer_belongs_to_its_request(header: Header, came: TypedOutcome)
    requires
        came is Ok,
    ensures
        typed_answer(header, came) matches Ok(m) && m.header.id == header.id && m.header.ec
            == match came->Ok_0 {
            Ok(_) => ErrorCode::Success.wire(),
            Err(refusal) => refusal.0.wire(),
        },
{
}

/// A route that may borrow its numbers serves every request in the regular form
/// as a route that copies them does, and refuses the same formats.
pub proof fn a_borrowing_route_can_take_the_place_of_a_copying_one<F: TypedSliceFn>(
    f: F,
    req: MessageModel,
    ctx: Option<CtxModel>,
    out: Outcome,
)
    requires
        req.header.body_format == BodyFormat::Beve.wire() ==> form_of(req.body)
            == SliceForm::Regular,
    ensures
        TypedSliceRefHandler(f).answers(req, ctx, out) == TypedSliceHandler(f).answers(
            req,
            ctx,
            out,
        ),
{
}

/// What a typed function returns reaches the one who called it as it was written,
/// in the format that was chosen; a refusal in its words; and an error as it is.
pub proof fn a_typed_function_is_answered_with_what_it_returned(header: Header, came: TypedOutcome)
    ensures
        came matches Ok(Ok(written)) ==> (typed_answer(header, came) matches Ok(m) && m.body
            == written.0 && m.header.body_format == written.1.wire() && m.header.id == header.id
            && m.header.ec == 0),
        came matches Ok(Err(refusal)) ==> (typed_answer(header, came) matches Ok(m)
            && vstd::utf8::decode_utf8(m.body) == refusal.1 && m.header.id == header.id
            && m.header.ec == refusal.0.wire()),
        came matches Err(e) ==> typed_answer(header, came) == Err::<MessageModel, ErrorModel>(e),
{
    if let Ok(Err(refusal)) = came {
        vstd::utf8::encode_utf8_decode_utf8(refusal.1);
    }
}

/// A typed handler is called with the body as it came, in the format that it is
/// in: JSON for JSON and text, BEVE for BEVE. Other formats are refused.
pub proof fn a_typed_handler_gets_the_body_in_its_format<F: TypedHandlerFn>(
    f: F,
    req: MessageModel,
    ctx: Option<CtxModel>,
    out: Outcome,
)
    requires
        TypedHandler(f).answers(req, ctx, out),
    ensures
        req.header.body_format == 2 || req.header.body_format == 3 ==> exists|came: TypedOutcome|
         #[trigger]
            f.calls(TypedFormat::Json, req.body, came) && out == typed_answer(req.header, came),
        req.header.body_format == 1 ==> exists|came: TypedOutcome| #[trigger]
            f.calls(TypedFormat::Beve, req.body, came) && out == typed_answer(req.header, came),
        req.header.body_format == 0 || req.header.body_format > 3 ==> (out matches Ok(m)
            && m.header.id == req.header.id && m.header.ec == ErrorCode::InvalidBody.wire()),
{
    handler::a_parameter_is_read_by_its_format(req.header, req.body);
}

/// A handler of numbers takes BEVE and nothing else, and is told of the aligned
/// form exactly where it may borrow and the body says so.
pub proof fn numbers_are_taken_as_beve_only<F: TypedSliceFn>(
    f: F,
    req: MessageModel,
    ctx: Option<CtxModel>,
    out: Outcome,
)
    ensures
        TypedSliceHandler(f).answers(req, ctx, out) && req.header.body_format == 1 ==> exists|
            came: TypedOutcome,
        | #[trigger]
            f.calls(SliceForm::Regular, req.body, came) && out == typed_answer(req.header, came),
        TypedSliceRefHandler(f).answers(req, ctx, out) && req.header.body_format == 1
            && req.body.len() > 0 && req.body[0] == 0x5c ==> exists|came: TypedOutcome| #[trigger]
            f.calls(SliceForm::Aligned, req.body, came) && out == typed_answer(req.header, came),
        TypedSliceRefHandler(f).answers(req, ctx, out) && req.header.body_format == 1 && (
        req.body.len() == 0 || req.body[0] != 0x5c) ==> exists|came: TypedOutcome| #[trigger]
            f.calls(SliceForm::Regular, req.body, came) && out == typed_answer(req.header, came),
        (TypedSliceHandler(f).answers(req, ctx, out) || TypedSliceRefHandler(f).answers(
            req,
            ctx,
            out,
        )) && req.header.body_format != 1 ==> (out matches Ok(m) && m.header.id == req.header.id
            && m.header.ec == ErrorCode::InvalidBody.wire()),
{
    if TypedSliceHandler(f).answers(req, ctx, out) && req.header.body_format == 1 {
        assert(slice_gives(f, SliceForm::Regular, req.header, req.body, out));
    }
    if TypedSliceRefHandler(f).answers(req, ctx, out) && req.header.body_format == 1 {
        assert(slice_gives(f, form_of(req.body), req.header, req.body, out));
    }
}

/// A returned value is written as BEVE where its format says so, and as JSON text
/// otherwise.
pub proof fn a_returned_value_is_written_in_its_format(format: BodyFormat)
    ensures
        written_as(format) == TypedFormat::Beve <==> format == BodyFormat::Beve,
        written_as(format) == TypedFormat::Json <==> format != BodyFormat::Beve,
{
}

/// A typed function that takes the context gets the body in its format, in the
/// context of the request: the one that was handed over, or one without a peer
/// that names the method. Other formats are refused.
pub proof fn a_typed_handler_is_called_in_its_context<F: TypedHandlerFnCtx>(
    f: F,
    req: MessageModel,
    ctx: Option<CtxModel>,
    at: CtxModel,
    out: Outcome,
)
    requires
        TypedHandlerCtx(f).answers(req, ctx, out),
        ctx is Some ==> ctx == Some(at),
        ctx is None ==> at.method == handler::query_text(req.query) && at.peer is None,
    ensures
        req.header.body_format == 2 || req.header.body_format == 3 ==> exists|came: TypedOutcome|
         #[trigger]
            f.calls_in(at, TypedFormat::Json, req.body, came) && out == typed_answer(
                req.header,
                came,
            ),
        req.header.body_format == 1 ==> exists|came: TypedOutcome| #[trigger]
            f.calls_in(at, TypedFormat::Beve, req.body, came) && out == typed_answer(
                req.header,
                came,
            ),
        req.header.body_format == 0 || req.header.body_format > 3 ==> (out matches Ok(m)
            && m.header.id == req.header.id && m.header.ec == ErrorCode::InvalidBody.wire()),
{
    handler::a_parameter_is_read_by_its_format(req.header, req.body);
}

/// An object served as a function does what the object does.
pub proof fn an_adapted_object_is_the_object<X: JsonTypedHandler>(
    x: X,
    format: TypedFormat,
    input: Seq<u8>,
    came: TypedOutcome,
)
    ensures
        JsonTypedAdapter(x).calls(format, input, came) == x.calls(format, input, came),
{
}

} // verus!
