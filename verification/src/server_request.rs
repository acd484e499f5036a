//! From a request frame to a response frame.
//!
//! [`verdict`] says what becomes of a request before a handler is called,
//! [`served`] what may be answered, and [`call_outcome`] what may come of the
//! bytes of a request.

use crate::constants::{ErrorCode, QueryFormat, REPE_VERSION};
use crate::error::{ErrorModel, IoKind, RepeError};
use crate::handler::{HandlerErased, Middleware, Outcome};
use crate::message;
use crate::message::{
    copy_bytes, create_error_message, create_error_response_like, error_response,
    write_view_response, Header, Message, MessageModel, MessageView,
};
use crate::peer::{CallContext, CtxModel};
use crate::server::{Composed, DispatchModel, Dispatched, Router, RouterModel};
use crate::text;
use crate::text::{concat2, u64_text, utf8_text};
use vstd::prelude::*;

verus! {

/// What becomes of a request: a handler is called for a path, or an error is
/// answered.
pub enum Verdict<H, M> {
    Dispatch { handler: DispatchModel<H, M>, path: Seq<char> },
    Reject { code: ErrorCode, text: Seq<char> },
}

/// Whether a request is a notify, which is not answered.
pub open spec fn is_notify(header: Header) -> bool {
    header.notify == 1
}

/// What becomes of a request. The version is checked first, then that the query
/// is a path, then that something serves the path.
pub open spec fn verdict<H, M>(
    router: RouterModel<H, M>,
    header: Header,
    query: Seq<u8>,
) -> Verdict<H, M> {
    if header.version != REPE_VERSION {
        Verdict::Reject {
            code: ErrorCode::VersionMismatch,
            text: "Unsupported REPE version "@ + text::decimal(header.version as nat),
        }
    } else if header.query_format != QueryFormat::JsonPointer.wire() {
        Verdict::Reject {
            code: ErrorCode::InvalidQuery,
            text: "Raw binary queries are not supported by this server"@,
        }
    } else if !vstd::utf8::valid_utf8(query) {
        Verdict::Reject { code: ErrorCode::InvalidQuery, text: "Query must be valid UTF-8"@ }
    } else {
        let path = vstd::utf8::decode_utf8(query);
        match router.resolve(path) {
            Some(handler) => Verdict::Dispatch { handler, path },
            None => Verdict::Reject {
                code: ErrorCode::MethodNotFound,
                text: "Method not found: "@ + path,
            },
        }
    }
}

/// What becomes of a request, with the handler to call.
pub enum RouteOutcome<'a, H, M> {
    /// Call the handler.
    Dispatch { handler: Dispatched<H, M>, notify: bool, path: &'a str },
    /// Answer an error, unless the request is a notify.
    Reject { notify: bool, code: ErrorCode, message: String },
}

/// Checks a request and finds the handler that serves it. A query in a format
/// that is not known counts as raw.
pub fn route<'a, H: HandlerErased, M: Middleware<Composed<H>>>(
    router: &Router<H, M>,
    header: &Header,
    query: &'a [u8],
) -> (r: RouteOutcome<'a, H, M>)
    requires
        router.wf(),
    ensures
        match r {
            RouteOutcome::Dispatch { handler, notify, path } => notify == is_notify(*header)
                && verdict(router@, *header, query@) == (Verdict::<H, M>::Dispatch {
                handler: handler@,
                path: path@,
            }),
            RouteOutcome::Reject { notify, code, message } => notify == is_notify(*header)
                && verdict(router@, *header, query@) == (Verdict::<H, M>::Reject {
                code,
                text: message@,
            }),
        },
{
    let notify: bool = header.notify == 1;
    if header.version != REPE_VERSION {
        return RouteOutcome::Reject {
            notify,
            code: ErrorCode::VersionMismatch,
            message: concat2(
                "Unsupported REPE version ",
                u64_text(header.version as u64).as_str(),
            ),
        };
    }
    let format = match QueryFormat::from_code(header.query_format) {
        Some(f) => f,
        None => QueryFormat::RawBinary,
    };
    let path: &str = match format {
        QueryFormat::JsonPointer => match utf8_text(query) {
            Some(p) => p,
            None => {
                return RouteOutcome::Reject {
                    notify,
                    code: ErrorCode::InvalidQuery,
                    message: "Query must be valid UTF-8".to_owned(),
                };
            },
        },
        QueryFormat::RawBinary => {
            return RouteOutcome::Reject {
                notify,
                code: ErrorCode::InvalidQuery,
                message: "Raw binary queries are not supported by this server".to_owned(),
            };
        },
    };
    match router.get(path) {
        Some(handler) => RouteOutcome::Dispatch { handler, notify, path },
        None => RouteOutcome::Reject {
            notify,
            code: ErrorCode::MethodNotFound,
            message: concat2("Method not found: ", path),
        },
    }
}

/// The response that an outcome comes to: an error becomes an error response.
pub open spec fn settled(header: Header, out: Outcome) -> MessageModel {
    match out {
        Ok(m) => m,
        Err(e) => message::error_reply(header, e.error_code(), e.text()),
    }
}

/// Whether `r` may be answered when a handler is called. It is called for a
/// notify too: what it answers is dropped.
pub open spec fn dispatched<X: HandlerErased>(
    handler: X,
    req: MessageModel,
    ctx: CtxModel,
    notify: bool,
    r: Option<MessageModel>,
) -> bool {
    match r {
        None => notify && exists|out: Outcome| #[trigger] handler.answers(req, Some(ctx), out),
        Some(m) => !notify && exists|out: Outcome| #[trigger]
            handler.answers(req, Some(ctx), out) && m == settled(req.header, out),
    }
}

/// A response, if there is one.
pub open spec fn response(r: Option<Message>) -> Option<MessageModel> {
    match r {
        Some(m) => Some(m@),
        None => None,
    }
}

/// Calls a handler for a borrowed request. A notify is carried out and not
/// answered.
pub fn dispatch_view<X: HandlerErased>(
    handler: &X,
    view: &MessageView<'_>,
    ctx: &CallContext<'_>,
    notify: bool,
) -> (r: Option<Message>)
    ensures
        dispatched(*handler, view@, ctx@, notify, response(r)),
{
    let result = handler.handle_view(view, ctx);
    let ghost out = message::outcome(result);
    assert(handler.answers(view@, Some(ctx@), out));
    if notify {
        return None;
    }
    Some(
        match result {
            Ok(m) => m,
            Err(e) => error_response(&view.header, e.to_error_code(), e.text().as_str()),
        },
    )
}

/// Calls a handler for an owned request. A notify is carried out and not
/// answered.
pub fn dispatch<X: HandlerErased>(
    handler: &X,
    req: &Message,
    ctx: &CallContext<'_>,
    notify: bool,
) -> (r: Option<Message>)
    ensures
        dispatched(*handler, req@, ctx@, notify, response(r)),
{
    let result = handler.handle_with_ctx(req, ctx);
    let ghost out = message::outcome(result);
    assert(handler.answers(req@, Some(ctx@), out));
    if notify {
        return None;
    }
    Some(
        match result {
            Ok(m) => m,
            Err(e) => create_error_response_like(req, e.to_error_code(), e.text().as_str()),
        },
    )
}

/// Whether `handler` was called for a request that came to `path`, without a
/// peer to speak of.
pub open spec fn called<H: HandlerErased, M: Middleware<Composed<H>>>(
    handler: DispatchModel<H, M>,
    req: MessageModel,
    path: Seq<char>,
) -> bool {
    exists|out: Outcome| #[trigger]
        handler.answers(req, Some(CtxModel { method: path, peer: None }), out)
}

/// Whether `r` may be answered to a request, its query still to be filled in.
pub open spec fn served<H: HandlerErased, M: Middleware<Composed<H>>>(
    router: RouterModel<H, M>,
    req: MessageModel,
    r: Option<MessageModel>,
) -> bool {
    match verdict(router, req.header, req.query) {
        Verdict::Reject { code, text } => r == if is_notify(req.header) {
            None
        } else {
            Some(message::error_reply(req.header, code, text))
        },
        Verdict::Dispatch { handler, path } => match r {
            None => is_notify(req.header) && called(handler, req, path),
            Some(m) => !is_notify(req.header) && exists|out: Outcome| #[trigger]
                handler.answers(req, Some(CtxModel { method: path, peer: None }), out) && m
                    == settled(req.header, out),
        },
    }
}

/// Serves a borrowed request. The query of the response is left for the writer
/// to fill in.
pub fn route_request_view<H: HandlerErased, M: Middleware<Composed<H>>>(
    router: &Router<H, M>,
    view: &MessageView<'_>,
) -> (r: Option<Message>)
    requires
        router.wf(),
    ensures
        served(router@, view@, response(r)),
{
    match route(router, &view.header, view.query) {
        RouteOutcome::Dispatch { handler, notify, path } => {
            let ctx = CallContext::detached(path);
            let r = dispatch_view(&handler, view, &ctx, notify);
            proof {
                let out = match response(r) {
                    Some(m) => choose|out: Outcome| #[trigger]
                        handler.answers(view@, Some(ctx@), out) && m == settled(view@.header, out),
                    None => choose|out: Outcome| #[trigger]
                        handler.answers(view@, Some(ctx@), out),
                };
                assert(handler@.answers(view@, Some(CtxModel { method: path@, peer: None }), out));
            }
            r
        },
        RouteOutcome::Reject { notify, code, message } => if notify {
            None
        } else {
            Some(error_response(&view.header, code, message.as_str()))
        },
    }
}

/// What a request comes to before a handler is called.
pub enum Resolution<H, M> {
    /// Send this, if anything.
    Respond(Option<Message>),
    /// Call the handler.
    Dispatch { handler: Dispatched<H, M>, notify: bool },
}

/// Checks an owned request and finds the handler that serves it.
pub fn resolve<H: HandlerErased, M: Middleware<Composed<H>>>(
    router: &Router<H, M>,
    req: &Message,
) -> (r: Resolution<H, M>)
    requires
        router.wf(),
    ensures
        match verdict(router@, req.header, req.query@) {
            Verdict::Reject { code, text } => r matches Resolution::Respond(m) && response(m)
                == if is_notify(req.header) {
                None
            } else {
                Some(message::error_reply(req.header, code, text))
            },
            Verdict::Dispatch { handler, path } => r matches Resolution::Dispatch {
                handler: found,
                notify,
            } && found@ == handler && notify == is_notify(req.header),
        },
{
    match route(router, &req.header, req.query.as_slice()) {
        RouteOutcome::Dispatch { handler, notify, path: _ } => Resolution::Dispatch {
            handler,
            notify,
        },
        RouteOutcome::Reject { notify, code, message } => Resolution::Respond(
            if notify {
                None
            } else {
                Some(create_error_response_like(req, code, message.as_str()))
            },
        ),
    }
}

/// A response with the query that it goes out with: that of the request, unless
/// the handler set one.
pub open spec fn echoed(m: MessageModel, query: Seq<u8>) -> MessageModel {
    if m.query.len() == 0 {
        MessageModel { query, ..m }.stamped()
    } else {
        m
    }
}

/// Fills in the query of a response, unless the handler set one.
pub fn echo_query(response: Message, query: &[u8]) -> (m: Message)
    ensures
        m@ == echoed(response@, query@),
{
    if response.query.len() == 0 {
        let header = response.header.stamp(query.len(), response.body.len());
        Message { header, query: copy_bytes(query), body: response.body }
    } else {
        response
    }
}

/// A response goes out as the same bytes whether its query is filled in first
/// or written beside it.
pub proof fn both_ways_of_echoing_agree(m: MessageModel, query: Seq<u8>)
    ensures
        message::frame_bytes(echoed(m, query).header, echoed(m, query).query, echoed(m, query).body)
            == message::reply_frame(m, query),
{
}

/// Whether `r` may come of the bytes of a request: nothing for a notify, a
/// response frame otherwise, and an error frame with id 0 for bytes that are
/// not one frame.
pub open spec fn call_outcome<H: HandlerErased, M: Middleware<Composed<H>>>(
    router: RouterModel<H, M>,
    request: Seq<u8>,
    r: Option<Seq<u8>>,
) -> bool {
    match message::parse_exact(request) {
        Ok(req) => match r {
            None => served(router, req, None),
            Some(frame) => sends(router, req, frame),
        },
        Err(e) => r == Some(fault_frame(e)),
    }
}

/// The error frame for bytes that are not one frame.
pub open spec fn fault_frame(e: ErrorModel) -> Seq<u8> {
    let m = message::error_reply(Header::blank(), e.error_code(), e.text());
    message::frame_bytes(m.header, m.query, m.body)
}

impl<H: HandlerErased, M: Middleware<Composed<H>>> Router<H, M> {
    /// Serves the bytes of one request. `None` for a notify: write nothing.
    pub fn call(&self, request: &[u8]) -> (r: Option<Vec<u8>>)
        requires
            self.wf(),
        ensures
            call_outcome(
                self@,
                request@,
                match r {
                    Some(b) => Some(b@),
                    None => None,
                },
            ),
    {
        let mut out: Vec<u8> = Vec::new();
        if self.call_into(request, &mut out) {
            Some(out)
        } else {
            None
        }
    }

    /// Like [`call`](Self::call), into a buffer of the caller's, which is
    /// cleared first. False for a notify.
    pub fn call_into(&self, request: &[u8], out: &mut Vec<u8>) -> (answered: bool)
        requires
            self.wf(),
        ensures
            call_outcome(
                self@,
                request@,
                if answered {
                    Some(final(out)@)
                } else {
                    None
                },
            ),
            !answered ==> final(out)@.len() == 0,
    {
        out.clear();
        match MessageView::from_slice_exact(request) {
            Ok(view) => match route_request_view(self, &view) {
                None => false,
                Some(response) => {
                    write_view_response(out, &response, view.query);
                    proof {
                        let m = response@;
                        assert(served(self@, view@, Some(m)));
                        assert(out@ =~= message::reply_frame(m, view@.query));
                    }
                    true
                },
            },
            Err(err) => {
                let m = create_error_message(err.to_error_code(), err.text().as_str());
                m.write_to(out);
                assert(out@ =~= fault_frame(err@));
                true
            },
        }
    }
}

// ---- a connection ----

/// What was read from a connection: a frame, or why there is none.
pub enum ConnectionEvent {
    Frame(Vec<u8>),
    Failed(RepeError),
}

/// What it leads to.
pub enum ConnectionStep {
    /// Send these bytes and read on.
    Send(Vec<u8>),
    /// Read on.
    ReadOn,
    /// The connection has ended.
    Finish,
    /// The connection has ended with an error.
    Fail(RepeError),
}

/// What a [`ConnectionStep`] says.
pub enum ConnectionModel {
    Send(Seq<u8>),
    ReadOn,
    Finish,
    Fail(ErrorModel),
}

impl View for ConnectionStep {
    type V = ConnectionModel;

    open spec fn view(&self) -> ConnectionModel {
        match *self {
            ConnectionStep::Send(bytes) => ConnectionModel::Send(bytes@),
            ConnectionStep::ReadOn => ConnectionModel::ReadOn,
            ConnectionStep::Finish => ConnectionModel::Finish,
            ConnectionStep::Fail(e) => ConnectionModel::Fail(e@),
        }
    }
}

/// Whether what was read may lead to `step`. The end of the input ends a
/// connection; any other failure, and a frame that cannot be read, end it with
/// an error.
pub open spec fn connection_outcome<H: HandlerErased, M: Middleware<Composed<H>>>(
    router: RouterModel<H, M>,
    event: ConnectionEvent,
    step: ConnectionModel,
) -> bool {
    match event {
        ConnectionEvent::Failed(e) => step == if is_end_of_input(e@) {
            ConnectionModel::Finish
        } else {
            ConnectionModel::Fail(e@)
        },
        ConnectionEvent::Frame(bytes) => match message::parse_frame(bytes@) {
            Err(e) => step == ConnectionModel::Fail(e),
            Ok(req) => match step {
                ConnectionModel::ReadOn => served(router, req, None),
                ConnectionModel::Send(sent) => sends(router, req, sent),
                _ => false,
            },
        },
    }
}

/// Whether `sent` may be sent in answer to a request.
pub open spec fn sends<H: HandlerErased, M: Middleware<Composed<H>>>(
    router: RouterModel<H, M>,
    req: MessageModel,
    sent: Seq<u8>,
) -> bool {
    exists|m: MessageModel| #[trigger]
        served(router, req, Some(m)) && sent == message::reply_frame(m, req.query)
}

/// Whether an error says that the input has ended.
pub open spec fn is_end_of_input(e: ErrorModel) -> bool {
    e matches ErrorModel::Io { kind: IoKind::UnexpectedEof, .. }
}

/// Decides what is done about what was read from a connection, and calls the
/// handler of a request.
pub fn connection_step<H: HandlerErased, M: Middleware<Composed<H>>>(
    router: &Router<H, M>,
    event: ConnectionEvent,
) -> (step: ConnectionStep)
    requires
        router.wf(),
    ensures
        connection_outcome(router@, event, step@),
{
    let ghost read = event;
    let bytes = match event {
        ConnectionEvent::Frame(bytes) => bytes,
        ConnectionEvent::Failed(e) => {
            let ended = match &e {
                RepeError::Io(io) => io.kind == IoKind::UnexpectedEof,
                _ => false,
            };
            let step = if ended {
                ConnectionStep::Finish
            } else {
                ConnectionStep::Fail(e)
            };
            assert(connection_outcome(router@, read, step@));
            return step;
        },
    };
    let ghost raw = bytes@;
    match MessageView::from_slice(bytes.as_slice()) {
        Err(e) => {
            assert(message::parse_frame(raw) == Err::<MessageModel, ErrorModel>(e@));
            ConnectionStep::Fail(e)
        },
        Ok(view) => {
            let ghost req = view@;
            assert(message::parse_frame(raw) == Ok::<MessageModel, ErrorModel>(req));
            match route_request_view(router, &view) {
                None => ConnectionStep::ReadOn,
                Some(response) => {
                    let mut out: Vec<u8> = Vec::new();
                    write_view_response(&mut out, &response, view.query);
                    proof {
                        let m = response@;
                        assert(served(router@, req, Some(m)));
                        assert(out@ =~= message::reply_frame(m, req.query));
                        assert(sends(router@, req, out@));
                    }
                    ConnectionStep::Send(out)
                },
            }
        },
    }
}

/// A notify is never answered, and every other request is.
pub proof fn only_a_notify_goes_unanswered<H: HandlerErased, M: Middleware<Composed<H>>>(
    router: RouterModel<H, M>,
    req: MessageModel,
    r: Option<MessageModel>,
)
    requires
        served(router, req, r),
    ensures
        r is None == is_notify(req.header),
{
}

/// A notify is not answered, and not dropped either: the handler that it finds
/// is called, like that of any other request.
pub proof fn a_notify_is_carried_out<H: HandlerErased, M: Middleware<Composed<H>>>(
    router: RouterModel<H, M>,
    req: MessageModel,
    r: Option<MessageModel>,
)
    requires
        served(router, req, r),
    ensures
        verdict(router, req.header, req.query) matches Verdict::Dispatch { handler, path } ==> called(
            handler,
            req,
            path,
        ),
{
}

/// Bytes that are not one frame are answered by an error with id 0, whatever is
/// registered: it cannot be known whether they were a notify.
pub proof fn an_unreadable_request_is_answered<H: HandlerErased, M: Middleware<Composed<H>>>(
    router: RouterModel<H, M>,
    request: Seq<u8>,
    r: Option<Seq<u8>>,
)
    requires
        call_outcome(router, request, r),
        message::parse_exact(request) is Err,
        fault_frame(message::parse_exact(request)->Err_0).len() <= u64::MAX,
    ensures
        r matches Some(frame) && message::parse_exact(frame) matches Ok(m) && m.header.id == 0
            && m.header.ec == message::parse_exact(request)->Err_0.error_code().wire()
            && m.header.ec != 0 && m.query.len() == 0,
{
    let e = message::parse_exact(request)->Err_0;
    let m = message::error_reply(Header::blank(), e.error_code(), e.text());
    message::header_round_trip(
        message::stamped(m.header, m.query.len(), m.body.len()),
        m.query + m.body,
    );
    message::frame_round_trip(m.header, m.query, m.body, Seq::empty());
    assert(fault_frame(e) + Seq::<u8>::empty() =~= fault_frame(e));
}

/// A request that nothing serves is answered by an error that carries its id
/// and echoes its query.
pub proof fn a_missing_method_is_reported<H: HandlerErased, M: Middleware<Composed<H>>>(
    router: RouterModel<H, M>,
    req: MessageModel,
    r: Option<MessageModel>,
)
    requires
        served(router, req, r),
        !is_notify(req.header),
        req.header.version == REPE_VERSION,
        req.header.query_format == QueryFormat::JsonPointer.wire(),
        vstd::utf8::valid_utf8(req.query),
        router.resolve(vstd::utf8::decode_utf8(req.query)) is None,
    ensures
        r matches Some(m) && m.header.id == req.header.id && m.header.ec
            == ErrorCode::MethodNotFound.wire() && m.body == vstd::utf8::encode_utf8(
            "Method not found: "@ + vstd::utf8::decode_utf8(req.query),
        ) && message::reply_frame(m, req.query) == message::frame_bytes(
            m.header,
            req.query,
            m.body,
        ),
{
}

/// The query that a response goes out with is the one of its request, unless
/// the handler set one, which is kept.
pub proof fn the_query_is_echoed(m: MessageModel, query: Seq<u8>)
    requires
        m.header.magic == crate::constants::REPE_SPEC,
        m.header.reserved == 0,
        message::reply_frame(m, query).len() <= u64::MAX,
    ensures
        message::parse_exact(message::reply_frame(m, query)) matches Ok(sent) && sent.query == (
        if m.query.len() == 0 {
            query
        } else {
            m.query
        }) && sent.body == m.body && sent.header.id == m.header.id && sent.header.ec
            == m.header.ec,
{
    let echoed = if m.query.len() == 0 {
        query
    } else {
        m.query
    };
    message::header_round_trip(
        message::stamped(m.header, echoed.len(), m.body.len()),
        echoed + m.body,
    );
    message::frame_round_trip(m.header, echoed, m.body, Seq::empty());
    let frame = message::reply_frame(m, query);
    assert(frame + Seq::<u8>::empty() =~= frame);
}

/// A request is handed to a handler exactly where it speaks this version, its
/// query is a path, and something serves the path; the handler is the one that
/// serves it. What is refused is refused for the first of these that fails.
pub proof fn a_request_is_dispatched_where_it_can_be<H, M>(
    router: RouterModel<H, M>,
    header: Header,
    query: Seq<u8>,
)
    ensures
        verdict(router, header, query) is Dispatch <==> header.version == 1 && header.query_format
            == 1 && vstd::utf8::valid_utf8(query) && router.resolve(
            vstd::utf8::decode_utf8(query),
        ) is Some,
        verdict(router, header, query) matches Verdict::Dispatch { handler, path } ==> path
            == vstd::utf8::decode_utf8(query) && router.resolve(path) == Some(handler),
        header.version != 1 ==> (verdict(router, header, query) matches Verdict::Reject {
            code,
            text,
        } && code == ErrorCode::VersionMismatch),
        header.version == 1 && (header.query_format != 1 || !vstd::utf8::valid_utf8(query)) ==> (
        verdict(router, header, query) matches Verdict::Reject { code, text } && code
            == ErrorCode::InvalidQuery),
        header.version == 1 && header.query_format == 1 && vstd::utf8::valid_utf8(query)
            && router.resolve(vstd::utf8::decode_utf8(query)) is None ==> verdict(
            router,
            header,
            query,
        ) == (Verdict::<H, M>::Reject {
            code: ErrorCode::MethodNotFound,
            text: "Method not found: "@ + vstd::utf8::decode_utf8(query),
        }),
        is_notify(header) <==> header.notify == 1,
{
}

/// A handler's response is the response; a handler's error is reported to the one
/// who asked, under its code and in its words.
pub proof fn a_handler_error_is_reported(header: Header, out: Outcome)
    ensures
        out matches Ok(m) ==> settled(header, out) == m,
        out matches Err(e) ==> {
            &&& settled(header, out).header.id == header.id
            &&& settled(header, out).header.ec == e.error_code().wire()
            &&& settled(header, out).header.notify == 0
            &&& vstd::utf8::decode_utf8(settled(header, out).body) == e.text()
        },
{
    if let Err(e) = out {
        vstd::utf8::encode_utf8_decode_utf8(e.text());
    }
}

/// A request that is not a notify is answered: by what a call of its handler came
/// to, or by the error for which it was refused, under its own id.
pub proof fn every_request_is_answered<H: HandlerErased, M: Middleware<Composed<H>>>(
    router: RouterModel<H, M>,
    req: MessageModel,
    r: Option<MessageModel>,
)
    requires
        served(router, req, r),
        req.header.notify != 1,
    ensures
        r is Some,
        verdict(router, req.header, req.query) matches Verdict::Reject { code, text } ==> (r
            matches Some(m) && m.header.id == req.header.id && m.header.ec == code.wire()
            && m.body == vstd::utf8::encode_utf8(text)),
        verdict(router, req.header, req.query) matches Verdict::Dispatch { handler, path } ==> (r
            matches Some(m) && exists|out: Outcome| #[trigger]
            handler.answers(req, Some(CtxModel { method: path, peer: None }), out) && m == settled(
                req.header,
                out,
            )),
{
}

/// The frame that answers a request can be read by the one who asked, whether a
/// handler answered it or it was refused; a request that is refused gets its id
/// back, and its query.
pub proof fn a_refused_request_hears_why<H: HandlerErased, M: Middleware<Composed<H>>>(
    router: RouterModel<H, M>,
    request: Seq<u8>,
    req: MessageModel,
    r: Option<Seq<u8>>,
    code: ErrorCode,
    text: Seq<char>,
)
    requires
        message::parse_exact(request) == Ok::<MessageModel, ErrorModel>(req),
        req.header.notify != 1,
        verdict(router, req.header, req.query) == (Verdict::<H, M>::Reject { code, text }),
        call_outcome(router, request, r),
        48 + req.query.len() + vstd::utf8::encode_utf8(text).len() <= u64::MAX,
        48 + vstd::utf8::encode_utf8(text).len() <= u64::MAX,
    ensures
        r matches Some(frame) && message::parse_exact(frame) matches Ok(m) && {
            &&& m.header.id == req.header.id
            &&& m.header.ec == code.wire()
            &&& m.query == req.query
            &&& vstd::utf8::decode_utf8(m.body) == text
        },
{
    let reply = message::error_reply(req.header, code, text);
    message::an_answer_can_be_read(reply, req.query);
    vstd::utf8::encode_utf8_decode_utf8(text);
    assert(r is Some);
    let frame = r->0;
    let m = choose|m: MessageModel| #[trigger]
        served(router, req, Some(m)) && frame == message::reply_frame(m, req.query);
    assert(m == reply);
}

/// Filling in the query changes nothing else of a response, and a query that a
/// handler set stays.
pub proof fn echoing_changes_the_query_only(m: MessageModel, query: Seq<u8>)
    ensures
        echoed(m, query).body == m.body,
        echoed(m, query).header.id == m.header.id,
        echoed(m, query).header.ec == m.header.ec,
        echoed(m, query).header.notify == m.header.notify,
        echoed(m, query).header.version == m.header.version,
        echoed(m, query).header.body_format == m.header.body_format,
        echoed(m, query).header.query_format == m.header.query_format,
        m.query.len() == 0 ==> echoed(m, query).query == query,
        m.query.len() > 0 ==> echoed(m, query) == m,
{
}

/// A connection ends well where its input ends, ends with the error where reading
/// fails or a frame cannot be read, and otherwise goes on: with a frame to send
/// for a request, and without one for a notify.
pub proof fn a_connection_goes_on_while_it_can_be_read<H: HandlerErased, M: Middleware<Composed<H>>>(
    router: RouterModel<H, M>,
    event: ConnectionEvent,
    step: ConnectionModel,
)
    requires
        connection_outcome(router, event, step),
    ensures
        event matches ConnectionEvent::Failed(e) ==> (step is Finish <==> (e@
            matches ErrorModel::Io { kind, .. } && kind == IoKind::UnexpectedEof)),
        event matches ConnectionEvent::Failed(e) ==> step is Finish || step
            == ConnectionModel::Fail(e@),
        event matches ConnectionEvent::Frame(bytes) ==> match message::parse_frame(bytes@) {
            Err(e) => step == ConnectionModel::Fail(e),
            Ok(req) => if req.header.notify == 1 {
                step is ReadOn
            } else {
                step matches ConnectionModel::Send(sent) && sends(router, req, sent)
            },
        },
{
    if let ConnectionEvent::Frame(bytes) = event {
        if let Ok(req) = message::parse_frame(bytes@) {
            if let ConnectionModel::Send(sent) = step {
                let m = choose|m: MessageModel| #[trigger]
                    served(router, req, Some(m)) && sent == message::reply_frame(m, req.query);
                assert(served(router, req, Some(m)));
            }
        }
    }
}

} // verus!
