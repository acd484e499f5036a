//! Registries and structs that are mounted under a prefix.

use crate::codec;
use crate::codec::{parse_beve, parse_json};
use crate::constants::{BodyFormat, ErrorCode};
use crate::error::{ErrorModel, RepeError};
use crate::handler;
use crate::handler::{query_or_empty, Execution, HandlerErased, Outcome};
use crate::message;
use crate::message::{
    create_body_response_unstamped, create_error_response_like, create_response_unstamped, Header,
    Message, MessageModel,
};
use crate::path;
use crate::path::{pointer_segments, starts_with_slash, strip_root};
use crate::peer::{CallContext, CtxModel};
use crate::structs;
use crate::structs::{RepeStruct, StructFault, StructResult};
use crate::text;
use crate::text::{concat2, concat3, text_equal, u64_text};
use serde_json::Value;
use std::sync::Arc;
use vstd::prelude::*;

verus! {

/// A mount point as it is kept: the root is empty, and any other starts with
/// `/`.
pub open spec fn normalized(root: Seq<char>) -> Seq<char> {
    if root.len() == 0 || root == "/"@ {
        Seq::empty()
    } else if root[0] == '/' {
        root
    } else {
        "/"@ + root
    }
}

/// A mount point as it is kept.
pub fn normalize_mount(root: &str) -> (s: String)
    ensures
        s@ == normalized(root@),
{
    if root.is_empty() || text_equal(root, "/") {
        String::new()
    } else if starts_with_slash(root) {
        root.to_owned()
    } else {
        concat2("/", root)
    }
}

/// A mount point that is kept stays as it is, and starts with `/` unless it is
/// the root.
pub proof fn normalizing_twice_changes_nothing(root: Seq<char>)
    ensures
        normalized(normalized(root)) == normalized(root),
        normalized(root).len() > 0 ==> normalized(root)[0] == '/',
{
    reveal_strlit("/");
    if root.len() > 0 && root != "/"@ && root[0] != '/' {
        let r = "/"@ + root;
        assert(r[0] == '/');
        assert(r.len() >= 2);
        assert("/"@.len() == 1);
    }
}

// ---- locks ----

/// Why a lock could not be taken.
#[derive(Debug)]
pub enum LockError {
    Poisoned(String),
    Other(String),
}

/// What a [`LockError`] says.
pub enum LockFault {
    Poisoned(Seq<char>),
    Other(Seq<char>),
}

impl View for LockError {
    type V = LockFault;

    open spec fn view(&self) -> LockFault {
        match *self {
            LockError::Poisoned(m) => LockFault::Poisoned(m@),
            LockError::Other(m) => LockFault::Other(m@),
        }
    }
}

impl LockError {
    pub fn poisoned(err: &str) -> (e: LockError)
        ensures
            e@ == LockFault::Poisoned(err@),
    {
        LockError::Poisoned(err.to_owned())
    }

    pub fn other(message: &str) -> (e: LockError)
        ensures
            e@ == LockFault::Other(message@),
    {
        LockError::Other(message.to_owned())
    }

    /// What the error says to a reader.
    pub fn text(&self) -> (s: String)
        ensures
            match self@ {
                LockFault::Poisoned(m) => s@ == m,
                LockFault::Other(m) => s@ == m,
            },
    {
        match self {
            LockError::Poisoned(m) => m.clone(),
            LockError::Other(m) => m.clone(),
        }
    }
}

/// The error reply to a lock that could not be taken.
pub open spec fn lock_reply(req: Header, at: Seq<char>, e: LockFault) -> MessageModel {
    match e {
        LockFault::Poisoned(m) => message::error_reply(
            req,
            ErrorCode::ParseError,
            "struct handler `"@ + at + "` lock poisoned: "@ + m,
        ),
        LockFault::Other(m) => message::error_reply(
            req,
            ErrorCode::ParseError,
            "struct handler `"@ + at + "` lock error: "@ + m,
        ),
    }
}

/// The error reply to a lock that could not be taken.
pub fn lock_error_response(req: &Message, at: &str, err: &LockError) -> (m: Message)
    ensures
        m@ == lock_reply(req.header, at@, err@),
{
    let detail = match err {
        LockError::Poisoned(m) => {
            let mut s = concat3("struct handler `", at, "` lock poisoned: ");
            s.append(m.as_str());
            s
        },
        LockError::Other(m) => {
            let mut s = concat3("struct handler `", at, "` lock error: ");
            s.append(m.as_str());
            s
        },
    };
    create_error_response_like(req, ErrorCode::ParseError, detail.as_str())
}

/// What a struct operation comes to.
pub type StructOutcome = Result<Option<Value>, StructFault>;

/// What an attempt to serve a read under a shared guard comes to: there is no
/// shared guard, it cannot be had, the struct declined, or it answered.
pub type SharedOutcome = Option<Result<Option<StructOutcome>, LockFault>>;

/// The tokens of a path as string slices.
fn token_slices(tokens: &Vec<String>) -> (v: Vec<&str>)
    ensures
        structs::str_texts(v@) == path::texts(tokens@),
{
    let mut v: Vec<&str> = Vec::new();
    let n: usize = tokens.len();
    let mut i: usize = 0;
    while i < n
        invariant
            i <= n,
            n == tokens@.len(),
            i == v@.len(),
            forall|j: int| 0 <= j < i ==> (#[trigger] v@[j])@ == tokens@[j]@,
        decreases n - i,
    {
        v.push(tokens[i].as_str());
        i = i + 1;
    }
    assert(structs::str_texts(v@) =~= path::texts(tokens@));
    v
}

/// Serves an operation on a struct, under exclusive access to it.
pub fn serve_exclusive<T: RepeStruct>(
    value: &mut T,
    tokens: &Vec<String>,
    body: Option<Value>,
) -> (r: StructResult<Option<Value>>)
    ensures
        old(value).handles(path::texts(tokens@), body, final(value), structs::struct_outcome(r)),
{
    let segments = token_slices(tokens);
    value.repe_handle(segments.as_slice(), body)
}

/// Serves a read of a struct, under shared access to it. `None`: the path needs
/// exclusive access.
pub fn serve_shared<T: RepeStruct>(value: &T, tokens: &Vec<String>) -> (r: Option<
    StructResult<Option<Value>>,
>)
    ensures
        value.reads(path::texts(tokens@), structs::read_outcome(r)),
{
    let segments = token_slices(tokens);
    value.repe_read(segments.as_slice())
}

/// A struct behind a lock.
pub trait Lockable {
    /// What an attempt to read under a shared guard may come to.
    open spec fn reads(&self, tokens: Seq<Seq<char>>, out: SharedOutcome) -> bool {
        true
    }

    /// What an operation under the exclusive guard may come to.
    open spec fn runs_locked(
        &self,
        tokens: Seq<Seq<char>>,
        body: Option<Value>,
        out: Result<StructOutcome, LockFault>,
    ) -> bool {
        true
    }

    /// Serves a read under a shared guard. `None`: this lock has none. The
    /// struct declines where the path needs exclusive access.
    fn with_read(&self, tokens: &Vec<String>) -> (r: Option<
        Result<Option<StructResult<Option<Value>>>, LockError>,
    >)
        ensures
            self.reads(path::texts(tokens@), shared_outcome(r)),
    ;

    /// Serves an operation under the exclusive guard.
    fn lock(&self, tokens: &Vec<String>, body: Option<Value>) -> (r: Result<
        StructResult<Option<Value>>,
        LockError,
    >)
        ensures
            self.runs_locked(path::texts(tokens@), body, locked_outcome(r)),
    ;
}

/// What an attempt to read under a shared guard came to.
pub open spec fn shared_outcome(
    r: Option<Result<Option<StructResult<Option<Value>>>, LockError>>,
) -> SharedOutcome {
    match r {
        None => None,
        Some(Err(e)) => Some(Err(e@)),
        Some(Ok(None)) => Some(Ok(None)),
        Some(Ok(Some(o))) => Some(Ok(Some(structs::struct_outcome(o)))),
    }
}

/// What an operation under the exclusive guard came to.
pub open spec fn locked_outcome(r: Result<StructResult<Option<Value>>, LockError>) -> Result<
    StructOutcome,
    LockFault,
> {
    match r {
        Err(e) => Err(e@),
        Ok(o) => Ok(structs::struct_outcome(o)),
    }
}

// ---- structs ----

/// The outcome of a request from what the struct came to: a value as JSON, a
/// JSON null where there is none, or the error.
pub open spec fn struct_reply(req: Header, out: StructOutcome) -> Outcome {
    match out {
        Ok(Some(v)) => message::value_reply(req, v, BodyFormat::Json),
        Ok(None) => Ok(
            message::body_reply(req, vstd::utf8::encode_utf8("null"@), BodyFormat::Json),
        ),
        Err(e) => Ok(message::error_reply(req, e.error_code(), e.text())),
    }
}

/// Turns what the struct came to into the outcome of the request.
pub fn finish_struct_response(req: &Message, result: StructResult<Option<Value>>) -> (r: Result<
    Message,
    RepeError,
>)
    ensures
        message::outcome(r) == struct_reply(req.header, structs::struct_outcome(result)),
{
    match result {
        Ok(Some(v)) => create_response_unstamped(&req.header, &v, BodyFormat::Json),
        Ok(None) => Ok(
            create_body_response_unstamped(
                &req.header,
                message::copy_bytes("null".as_bytes()),
                BodyFormat::Json,
            ),
        ),
        Err(e) => Ok(create_error_response_like(req, e.code(), e.text().as_str())),
    }
}

/// The pointer into a struct that a path stands for, where the path lies below
/// the root of the struct.
pub open spec fn relative_to(root: Seq<char>, at: Seq<char>) -> Option<Seq<char>> {
    if root.len() == 0 {
        Some(at)
    } else if at == root {
        Some(Seq::empty())
    } else {
        path::remainder_below(root, at)
    }
}

/// The value in the body of a request to a struct, the reply to a body in a
/// format that a struct does not take, or the error of a body that cannot be
/// parsed.
pub open spec fn struct_body(req: MessageModel, at: Seq<char>) -> Result<
    Result<Value, MessageModel>,
    ErrorModel,
> {
    match BodyFormat::of_wire(req.header.body_format) {
        Some(BodyFormat::Json) | Some(BodyFormat::Utf8) => match codec::json_parsed(req.body) {
            Ok(v) => Ok(Ok(v)),
            Err(m) => Err(ErrorModel::Json(m)),
        },
        Some(BodyFormat::Beve) => match codec::beve_parsed(req.body) {
            Ok(v) => Ok(Ok(v)),
            Err(m) => Err(ErrorModel::Beve(m)),
        },
        _ => Ok(
            Err(
                message::error_reply(
                    req.header,
                    ErrorCode::InvalidBody,
                    "struct handler `"@ + at + "` requires JSON or BEVE body, got format "@
                        + text::decimal(req.header.body_format as nat),
                ),
            ),
        ),
    }
}

/// Decodes the body of a request to a struct.
fn decode_struct_body(req: &Message, at: &str) -> (r: Result<Result<Value, Message>, RepeError>)
    ensures
        handler::param_outcome(r) == struct_body(req@, at@),
{
    match BodyFormat::from_code(req.header.body_format) {
        Some(BodyFormat::Json) | Some(BodyFormat::Utf8) => match parse_json(req.body.as_slice()) {
            Ok(v) => Ok(Ok(v)),
            Err(m) => Err(RepeError::Json(m)),
        },
        Some(BodyFormat::Beve) => match parse_beve(req.body.as_slice()) {
            Ok(v) => Ok(Ok(v)),
            Err(m) => Err(RepeError::Beve(m)),
        },
        _ => {
            let mut s = concat3(
                "struct handler `",
                at,
                "` requires JSON or BEVE body, got format ",
            );
            s.append(u64_text(req.header.body_format as u64).as_str());
            Ok(Err(create_error_response_like(req, ErrorCode::InvalidBody, s.as_str())))
        },
    }
}

/// Whether `out` may come of an operation under the exclusive guard.
pub open spec fn exclusive_answer<L: Lockable>(
    shared: L,
    req: MessageModel,
    at: Seq<char>,
    tokens: Seq<Seq<char>>,
    body: Option<Value>,
    out: Outcome,
) -> bool {
    exists|res: Result<StructOutcome, LockFault>| #[trigger]
        shared.runs_locked(tokens, body, res) && match res {
            Err(e) => out == Ok::<MessageModel, ErrorModel>(lock_reply(req.header, at, e)),
            Ok(o) => out == struct_reply(req.header, o),
        }
}

/// Whether `out` may come of a read: the shared guard is tried first, and the
/// exclusive one where there is no shared guard or the struct declines.
pub open spec fn read_answer<L: Lockable>(
    shared: L,
    req: MessageModel,
    at: Seq<char>,
    tokens: Seq<Seq<char>>,
    out: Outcome,
) -> bool {
    exists|read: SharedOutcome| #[trigger]
        shared.reads(tokens, read) && match read {
            Some(Ok(Some(o))) => out == struct_reply(req.header, o),
            Some(Err(e)) => out == Ok::<MessageModel, ErrorModel>(lock_reply(req.header, at, e)),
            Some(Ok(None)) | None => exclusive_answer(shared, req, at, tokens, None, out),
        }
}

/// A struct that is mounted at a root.
pub struct RegisteredStruct<L> {
    root: String,
    shared: Arc<L>,
}

impl<L> RegisteredStruct<L> {
    /// Where the struct is mounted.
    pub closed spec fn mounted_at(self) -> Seq<char> {
        self.root@
    }

    /// The struct behind its lock.
    pub closed spec fn locked(self) -> Arc<L> {
        self.shared
    }

    /// Mounts a struct at `root`.
    pub fn new(root: &str, shared: Arc<L>) -> (s: RegisteredStruct<L>)
        ensures
            s.mounted_at() == normalized(root@),
            s.locked() == shared,
    {
        RegisteredStruct { root: normalize_mount(root), shared }
    }

    /// Where the struct is mounted.
    pub fn root(&self) -> (s: &str)
        ensures
            s@ == self.mounted_at(),
    {
        self.root.as_str()
    }

    /// The pointer into the struct that `at` stands for.
    pub fn relative_pointer<'a>(&self, at: &'a str) -> (r: Option<&'a str>)
        ensures
            match r {
                Some(p) => relative_to(self.mounted_at(), at@) == Some(p@),
                None => relative_to(self.mounted_at(), at@) is None,
            },
    {
        proof {
            reveal_strlit("");
            assert(""@ =~= Seq::<char>::empty());
        }
        if self.root.as_str().is_empty() {
            Some(at)
        } else if text_equal(at, self.root.as_str()) {
            Some("")
        } else {
            strip_root(self.root.as_str(), at)
        }
    }
}

impl<L: Lockable> HandlerErased for RegisteredStruct<L> {
    /// A path outside the root is a miss. A request without a body reads, and
    /// one with a body writes or calls.
    open spec fn answers(&self, req: MessageModel, ctx: Option<CtxModel>, out: Outcome) -> bool {
        let at = handler::query_text(req.query);
        match relative_to(self.mounted_at(), at) {
            None => out == Ok::<MessageModel, ErrorModel>(
                message::error_reply(
                    req.header,
                    ErrorCode::MethodNotFound,
                    "path is not below struct root: "@ + at,
                ),
            ),
            Some(relative) => if req.body.len() == 0 {
                read_answer(*self.locked(), req, at, path::pointer_tokens(relative), out)
            } else {
                match struct_body(req, at) {
                    Err(e) => out == Err::<MessageModel, ErrorModel>(e),
                    Ok(Err(reply)) => out == Ok::<MessageModel, ErrorModel>(reply),
                    Ok(Ok(v)) => exclusive_answer(
                        *self.locked(),
                        req,
                        at,
                        path::pointer_tokens(relative),
                        Some(v),
                        out,
                    ),
                }
            },
        }
    }

    open spec fn runs(&self) -> Execution {
        Execution::Inline
    }

    fn handle(&self, req: &Message) -> (r: Result<Message, RepeError>) {
        let at = query_or_empty(req);
        let relative = match self.relative_pointer(at) {
            Some(p) => p,
            None => {
                let s = concat2("path is not below struct root: ", at);
                return Ok(
                    create_error_response_like(req, ErrorCode::MethodNotFound, s.as_str()),
                );
            },
        };
        let tokens = pointer_segments(relative);
        let body: Option<Value> = if req.body.len() == 0 {
            let read = self.shared.with_read(&tokens);
            let ghost came = shared_outcome(read);
            assert(self.locked().reads(path::texts(tokens@), came));
            match read {
                Some(Ok(Some(o))) => {
                    let r = finish_struct_response(req, o);
                    assert(read_answer(
                        *self.locked(),
                        req@,
                        at@,
                        path::texts(tokens@),
                        message::outcome(r),
                    ));
                    return r;
                },
                Some(Err(e)) => {
                    let r = Ok(lock_error_response(req, at, &e));
                    assert(read_answer(
                        *self.locked(),
                        req@,
                        at@,
                        path::texts(tokens@),
                        message::outcome(r),
                    ));
                    return r;
                },
                Some(Ok(None)) => None,
                None => None,
            }
        } else {
            match decode_struct_body(req, at) {
                Err(e) => return Err(e),
                Ok(Err(reply)) => return Ok(reply),
                Ok(Ok(v)) => Some(v),
            }
        };
        let ghost wanted = body;
        let locked = self.shared.lock(&tokens, body);
        let ghost came = locked_outcome(locked);
        assert(self.locked().runs_locked(path::texts(tokens@), wanted, came));
        let r = match locked {
            Err(e) => Ok(lock_error_response(req, at, &e)),
            Ok(o) => finish_struct_response(req, o),
        };
        assert(exclusive_answer(
            *self.locked(),
            req@,
            at@,
            path::texts(tokens@),
            wanted,
            message::outcome(r),
        ));
        r
    }

    fn handle_with_ctx(&self, req: &Message, ctx: &CallContext<'_>) -> (r: Result<
        Message,
        RepeError,
    >) {
        self.handle(req)
    }

    fn execution(&self) -> (e: Execution) {
        Execution::Inline
    }
}

// ---- registries ----

/// Why a registry did not serve a request.
#[derive(Debug)]
pub struct RegistryError {
    pub code: ErrorCode,
    pub message: String,
}

/// What a registry operation comes to.
pub type RegistryOutcome = Result<Value, (ErrorCode, Seq<char>)>;

/// What a registry operation came to.
pub open spec fn registry_outcome(r: Result<Value, RegistryError>) -> RegistryOutcome {
    match r {
        Ok(v) => Ok(v),
        Err(e) => Err((e.code, e.message@)),
    }
}

/// A tree of values and functions, found by JSON pointers: without a body a
/// value is read, with one a function is called or a value is written.
pub trait Registry {
    /// What a request may come to.
    open spec fn dispatches(
        &self,
        pointer: Seq<char>,
        body: Option<Value>,
        ctx: Option<CtxModel>,
        out: RegistryOutcome,
    ) -> bool {
        true
    }

    fn dispatch(&self, pointer: &str, body: Option<Value>) -> (r: Result<Value, RegistryError>)
        ensures
            self.dispatches(pointer@, body, None, registry_outcome(r)),
    ;

    fn dispatch_with_ctx(&self, pointer: &str, body: Option<Value>, ctx: &CallContext<'_>) -> (r:
        Result<Value, RegistryError>)
        ensures
            self.dispatches(pointer@, body, Some(ctx@), registry_outcome(r)),
    ;
}

/// The value in the body of a request to a registry, if it has a body.
pub open spec fn registry_body(req: MessageModel) -> Result<Option<Value>, (ErrorCode, Seq<char>)> {
    if req.body.len() == 0 {
        Ok(None)
    } else {
        match BodyFormat::of_wire(req.header.body_format) {
            Some(BodyFormat::Json) | Some(BodyFormat::Utf8) => match codec::json_parsed(req.body) {
                Ok(v) => Ok(Some(v)),
                Err(m) => Err((ErrorCode::ParseError, "json error: "@ + m)),
            },
            Some(BodyFormat::Beve) => match codec::beve_parsed(req.body) {
                Ok(v) => Ok(Some(v)),
                Err(m) => Err((ErrorCode::ParseError, "beve error: "@ + m)),
            },
            _ => Err(
                (
                    ErrorCode::InvalidBody,
                    "registry requires JSON or BEVE body, got format "@ + text::decimal(
                        req.header.body_format as nat,
                    ),
                ),
            ),
        }
    }
}

/// Decodes the body of a request to a registry.
pub fn decode_registry_body(req: &Message) -> (r: Result<Option<Value>, RegistryError>)
    ensures
        match registry_body(req@) {
            Ok(v) => r == Ok::<Option<Value>, RegistryError>(v),
            Err(m) => r matches Err(e) && (e.code, e.message@) == m,
        },
{
    if req.body.len() == 0 {
        return Ok(None);
    }
    match BodyFormat::from_code(req.header.body_format) {
        Some(BodyFormat::Json) | Some(BodyFormat::Utf8) => match parse_json(req.body.as_slice()) {
            Ok(v) => Ok(Some(v)),
            Err(m) => Err(
                RegistryError {
                    code: ErrorCode::ParseError,
                    message: concat2("json error: ", m.as_str()),
                },
            ),
        },
        Some(BodyFormat::Beve) => match parse_beve(req.body.as_slice()) {
            Ok(v) => Ok(Some(v)),
            Err(m) => Err(
                RegistryError {
                    code: ErrorCode::ParseError,
                    message: concat2("beve error: ", m.as_str()),
                },
            ),
        },
        _ => Err(
            RegistryError {
                code: ErrorCode::InvalidBody,
                message: concat2(
                    "registry requires JSON or BEVE body, got format ",
                    u64_text(req.header.body_format as u64).as_str(),
                ),
            },
        ),
    }
}

/// The pointer into a registry that a path stands for, where the path lies
/// below the prefix of the registry. The prefix itself stands for its root.
pub open spec fn registry_pointer(prefix: Seq<char>, at: Seq<char>) -> Option<Seq<char>> {
    if prefix.len() == 0 {
        if at.len() == 0 {
            Some("/"@)
        } else {
            Some(at)
        }
    } else if at == prefix {
        Some("/"@)
    } else {
        path::remainder_below(prefix, at)
    }
}

/// The outcome of a request from what the registry came to.
pub open spec fn registry_reply(req: Header, out: RegistryOutcome) -> Outcome {
    match out {
        Ok(v) => message::value_reply(req, v, BodyFormat::Json),
        Err(e) => Ok(message::error_reply(req, e.0, e.1)),
    }
}

/// Turns what the registry came to into the outcome of the request.
fn finish_registry_response(req: &Message, result: Result<Value, RegistryError>) -> (r: Result<
    Message,
    RepeError,
>)
    ensures
        message::outcome(r) == registry_reply(req.header, registry_outcome(result)),
{
    match result {
        Ok(v) => create_response_unstamped(&req.header, &v, BodyFormat::Json),
        Err(e) => Ok(create_error_response_like(req, e.code, e.message.as_str())),
    }
}

/// Whether `out` may come of asking the registry.
pub open spec fn registry_answer<G: Registry>(
    registry: G,
    req: MessageModel,
    pointer: Seq<char>,
    body: Option<Value>,
    ctx: Option<CtxModel>,
    out: Outcome,
) -> bool {
    exists|res: RegistryOutcome| #[trigger]
        registry.dispatches(pointer, body, ctx, res) && out == registry_reply(req.header, res)
}

/// A registry that is mounted under a prefix.
pub struct RegisteredRegistry<G> {
    prefix: String,
    registry: Arc<G>,
}

impl<G> RegisteredRegistry<G> {
    /// Where the registry is mounted.
    pub closed spec fn mounted_at(self) -> Seq<char> {
        self.prefix@
    }

    /// The registry.
    pub closed spec fn backend(self) -> Arc<G> {
        self.registry
    }

    /// Mounts a registry under `prefix`.
    pub fn new(prefix: &str, registry: Arc<G>) -> (r: RegisteredRegistry<G>)
        ensures
            r.mounted_at() == normalized(prefix@),
            r.backend() == registry,
    {
        RegisteredRegistry { prefix: normalize_mount(prefix), registry }
    }

    /// Where the registry is mounted.
    pub fn prefix(&self) -> (s: &str)
        ensures
            s@ == self.mounted_at(),
    {
        self.prefix.as_str()
    }

    /// The pointer into the registry that `at` stands for.
    pub fn pointer_for<'a>(&self, at: &'a str) -> (r: Option<&'a str>)
        ensures
            match r {
                Some(p) => registry_pointer(self.mounted_at(), at@) == Some(p@),
                None => registry_pointer(self.mounted_at(), at@) is None,
            },
    {
        if self.prefix.as_str().is_empty() {
            return if at.is_empty() {
                Some("/")
            } else {
                Some(at)
            };
        }
        if text_equal(at, self.prefix.as_str()) {
            return Some("/");
        }
        strip_root(self.prefix.as_str(), at)
    }

    /// What a request asks of the registry, or the reply to one that it cannot
    /// be asked.
    fn prepare<'a>(&self, req: &'a Message) -> (r: Result<(&'a str, Option<Value>), Message>)
        ensures
            match registry_pointer(self.mounted_at(), handler::query_text(req.query@)) {
                None => r matches Err(m) && m@ == message::error_reply(
                    req.header,
                    ErrorCode::MethodNotFound,
                    "path is not below registry prefix: "@ + handler::query_text(req.query@),
                ),
                Some(pointer) => match registry_body(req@) {
                    Ok(v) => r matches Ok(a) && a.0@ == pointer && a.1 == v,
                    Err(e) => r matches Err(m) && m@ == message::error_reply(
                        req.header,
                        e.0,
                        e.1,
                    ),
                },
            },
    {
        let at = query_or_empty(req);
        let pointer = match self.pointer_for(at) {
            Some(p) => p,
            None => {
                let s = concat2("path is not below registry prefix: ", at);
                return Err(
                    create_error_response_like(req, ErrorCode::MethodNotFound, s.as_str()),
                );
            },
        };
        match decode_registry_body(req) {
            Ok(v) => Ok((pointer, v)),
            Err(e) => Err(create_error_response_like(req, e.code, e.message.as_str())),
        }
    }
}

impl<G: Registry> HandlerErased for RegisteredRegistry<G> {
    open spec fn answers(&self, req: MessageModel, ctx: Option<CtxModel>, out: Outcome) -> bool {
        let at = handler::query_text(req.query);
        match registry_pointer(self.mounted_at(), at) {
            None => out == Ok::<MessageModel, ErrorModel>(
                message::error_reply(
                    req.header,
                    ErrorCode::MethodNotFound,
                    "path is not below registry prefix: "@ + at,
                ),
            ),
            Some(pointer) => match registry_body(req) {
                Err(e) => out == Ok::<MessageModel, ErrorModel>(
                    message::error_reply(req.header, e.0, e.1),
                ),
                Ok(body) => registry_answer(*self.backend(), req, pointer, body, ctx, out),
            },
        }
    }

    open spec fn runs(&self) -> Execution {
        Execution::Inline
    }

    fn handle(&self, req: &Message) -> (r: Result<Message, RepeError>) {
        let (pointer, body) = match self.prepare(req) {
            Ok(a) => a,
            Err(reply) => return Ok(reply),
        };
        let ghost wanted = body;
        let result = self.registry.dispatch(pointer, body);
        let ghost came = registry_outcome(result);
        assert(self.backend().dispatches(pointer@, wanted, None, came));
        let r = finish_registry_response(req, result);
        assert(registry_answer(
            *self.backend(),
            req@,
            pointer@,
            wanted,
            None,
            message::outcome(r),
        ));
        r
    }

    fn handle_with_ctx(&self, req: &Message, ctx: &CallContext<'_>) -> (r: Result<
        Message,
        RepeError,
    >) {
        let (pointer, body) = match self.prepare(req) {
            Ok(a) => a,
            Err(reply) => return Ok(reply),
        };
        let ghost wanted = body;
        let result = self.registry.dispatch_with_ctx(pointer, body, ctx);
        let ghost came = registry_outcome(result);
        assert(self.backend().dispatches(pointer@, wanted, Some(ctx@), came));
        let r = finish_registry_response(req, result);
        assert(registry_answer(
            *self.backend(),
            req@,
            pointer@,
            wanted,
            Some(ctx@),
            message::outcome(r),
        ));
        r
    }

    fn execution(&self) -> (e: Execution) {
        Execution::Inline
    }
}

/// A path that a mount is asked for is one that it can find: where the path
/// lies below the mount point, a struct and a registry have a pointer for it,
/// and only there.
pub proof fn a_mount_covers_what_lies_below_it(root: Seq<char>, at: Seq<char>)
    ensures
        path::lies_below(root, at) == relative_to(root, at) is Some,
        path::lies_below(root, at) == registry_pointer(root, at) is Some,
{
}

/// The body of a request to a struct is decoded by its format: JSON and text by
/// the JSON codec, BEVE by the BEVE codec. Raw and unknown formats are refused,
/// and a body that the codec cannot read is the codec's error.
pub proof fn a_struct_body_is_decoded_by_its_format(req: MessageModel, at: Seq<char>)
    ensures
        req.header.body_format == 2 || req.header.body_format == 3 ==> struct_body(req, at)
            == match codec::json_parsed(req.body) {
            Ok(v) => Ok::<Result<Value, MessageModel>, ErrorModel>(Ok(v)),
            Err(m) => Err(ErrorModel::Json(m)),
        },
        req.header.body_format == 1 ==> struct_body(req, at) == match codec::beve_parsed(req.body) {
            Ok(v) => Ok::<Result<Value, MessageModel>, ErrorModel>(Ok(v)),
            Err(m) => Err(ErrorModel::Beve(m)),
        },
        req.header.body_format == 0 || req.header.body_format > 3 ==> (struct_body(req, at)
            matches Ok(Err(reply)) && reply.header.id == req.header.id && reply.header.ec
            == ErrorCode::InvalidBody.wire()),
{
}

/// A value means the same to a struct whichever way it was written: requests that
/// carry it as JSON, as text or as BEVE lead to the same operation.
pub proof fn a_value_means_the_same_in_every_format(
    one: MessageModel,
    other: MessageModel,
    at: Seq<char>,
    v: Value,
)
    requires
        one.header.body_format == 2 || one.header.body_format == 3,
        codec::json_parsed(one.body) == Ok::<Value, Seq<char>>(v),
        other.header.body_format == 1,
        codec::beve_parsed(other.body) == Ok::<Value, Seq<char>>(v),
    ensures
        struct_body(one, at) == Ok::<Result<Value, MessageModel>, ErrorModel>(Ok(v)),
        struct_body(other, at) == struct_body(one, at),
        one.body.len() > 0 ==> registry_body(one) == Ok::<
            Option<Value>,
            (ErrorCode, Seq<char>),
        >(Some(v)),
        other.body.len() > 0 ==> registry_body(other) == Ok::<
            Option<Value>,
            (ErrorCode, Seq<char>),
        >(Some(v)),
{
}

/// A request with a value, to a path below the root of a struct, is the operation
/// that the tokens of the rest of the path name, with that value, and is answered
/// with what the struct made of it.
pub proof fn a_write_reaches_the_struct<L: Lockable>(
    s: RegisteredStruct<L>,
    req: MessageModel,
    ctx: Option<CtxModel>,
    out: Outcome,
    keys: Seq<Seq<char>>,
    v: Value,
)
    requires
        s.answers(req, ctx, out),
        vstd::utf8::valid_utf8(req.query),
        vstd::utf8::decode_utf8(req.query) == s.mounted_at() + path::pointer_to(keys),
        req.body.len() > 0,
        ({
            ||| (req.header.body_format == 2 || req.header.body_format == 3) && codec::json_parsed(
                req.body,
            ) == Ok::<Value, Seq<char>>(v)
            ||| req.header.body_format == 1 && codec::beve_parsed(req.body) == Ok::<
                Value,
                Seq<char>,
            >(v)
        }),
    ensures
        exists|came: Result<StructOutcome, LockFault>| #[trigger]
            s.locked().runs_locked(keys, Some(v), came) && match came {
                Ok(o) => out == struct_reply(req.header, o),
                Err(_) => out matches Ok(m) && m.header.id == req.header.id && m.header.ec
                    == ErrorCode::ParseError.wire(),
            },
{
    let at = handler::query_text(req.query);
    below_the_root(s.mounted_at(), keys);
    path::a_pointer_leads_along_its_keys(keys);
    assert(exclusive_answer(*s.locked(), req, at, keys, Some(v), out));
    let came = choose|res: Result<StructOutcome, LockFault>| #[trigger]
        s.locked().runs_locked(keys, Some(v), res) && match res {
            Err(e) => out == Ok::<MessageModel, ErrorModel>(lock_reply(req.header, at, e)),
            Ok(o) => out == struct_reply(req.header, o),
        };
    assert(s.locked().runs_locked(keys, Some(v), came));
}

/// A request without a body, to a path below the root of a struct, reads what the
/// tokens of the rest of the path name: under the shared guard if that is to be
/// had, and otherwise under the exclusive one.
pub proof fn a_read_reaches_the_struct<L: Lockable>(
    s: RegisteredStruct<L>,
    req: MessageModel,
    ctx: Option<CtxModel>,
    out: Outcome,
    keys: Seq<Seq<char>>,
)
    requires
        s.answers(req, ctx, out),
        vstd::utf8::valid_utf8(req.query),
        vstd::utf8::decode_utf8(req.query) == s.mounted_at() + path::pointer_to(keys),
        req.body.len() == 0,
    ensures
        exists|read: SharedOutcome| #[trigger]
            s.locked().reads(keys, read) && match read {
                Some(Ok(Some(o))) => out == struct_reply(req.header, o),
                Some(Err(_)) => out matches Ok(m) && m.header.id == req.header.id && m.header.ec
                    == ErrorCode::ParseError.wire(),
                _ => exists|came: Result<StructOutcome, LockFault>| #[trigger]
                    s.locked().runs_locked(keys, None, came) && match came {
                        Ok(o) => out == struct_reply(req.header, o),
                        Err(_) => out matches Ok(m) && m.header.id == req.header.id && m.header.ec
                            == ErrorCode::ParseError.wire(),
                    },
            },
{
    let at = handler::query_text(req.query);
    below_the_root(s.mounted_at(), keys);
    path::a_pointer_leads_along_its_keys(keys);
    assert(read_answer(*s.locked(), req, at, keys, out));
    let read = choose|read: SharedOutcome| #[trigger]
        s.locked().reads(keys, read) && match read {
            Some(Ok(Some(o))) => out == struct_reply(req.header, o),
            Some(Err(e)) => out == Ok::<MessageModel, ErrorModel>(lock_reply(req.header, at, e)),
            Some(Ok(None)) | None => exclusive_answer(*s.locked(), req, at, keys, None, out),
        };
    assert(s.locked().reads(keys, read));
    if !(read matches Some(Ok(Some(_)))) && !(read matches Some(Err(_))) {
        let came = choose|res: Result<StructOutcome, LockFault>| #[trigger]
            s.locked().runs_locked(keys, None, res) && match res {
                Err(e) => out == Ok::<MessageModel, ErrorModel>(lock_reply(req.header, at, e)),
                Ok(o) => out == struct_reply(req.header, o),
            };
        assert(s.locked().runs_locked(keys, None, came));
    }
}

/// The pointer that is left of a path behind the root of a struct.
proof fn below_the_root(root: Seq<char>, keys: Seq<Seq<char>>)
    ensures
        relative_to(root, root + path::pointer_to(keys)) == Some(path::pointer_to(keys)),
{
    let p = path::pointer_to(keys);
    let at = root + p;
    if root.len() == 0 {
        assert(at =~= p);
    } else if keys.len() == 0 {
        assert(at =~= root);
    } else {
        assert(p[0] == '/');
        assert(at.subrange(0, root.len() as int) =~= root);
        assert(at.subrange(root.len() as int, at.len() as int) =~= p);
        assert(at[root.len() as int] == '/');
        assert(at.len() > root.len());
    }
}

/// What a struct answers reaches the one who asked: a value as JSON, null where
/// there is none, and a refusal under its code and in its words.
pub proof fn a_struct_answer_reaches_the_one_who_asked(req: Header, out: StructOutcome)
    ensures
        out matches Ok(Some(v)) ==> struct_reply(req, out) == message::value_reply(
            req,
            v,
            BodyFormat::Json,
        ),
        out == Ok::<Option<Value>, StructFault>(None) ==> (struct_reply(req, out) matches Ok(m)
            && m.header.id == req.id && m.header.ec == 0 && m.header.body_format == 2
            && vstd::utf8::decode_utf8(m.body) == "null"@),
        out matches Err(e) ==> (struct_reply(req, out) matches Ok(m) && m.header.id == req.id
            && m.header.ec == e.error_code().wire() && m.header.ec != 0
            && vstd::utf8::decode_utf8(m.body) == e.text()),
{
    vstd::utf8::encode_utf8_decode_utf8("null"@);
    if let Err(e) = out {
        vstd::utf8::encode_utf8_decode_utf8(e.text());
    }
}

/// The body of a request to a registry is decoded by its format, and a request
/// without a body asks for a read.
pub proof fn a_registry_body_is_decoded_by_its_format(req: MessageModel)
    ensures
        req.body.len() == 0 ==> registry_body(req) == Ok::<Option<Value>, (ErrorCode, Seq<char>)>(
            None,
        ),
        req.body.len() > 0 && (req.header.body_format == 2 || req.header.body_format == 3)
            ==> match codec::json_parsed(req.body) {
            Ok(v) => registry_body(req) == Ok::<Option<Value>, (ErrorCode, Seq<char>)>(Some(v)),
            Err(_) => registry_body(req) matches Err(e) && e.0 == ErrorCode::ParseError,
        },
        req.body.len() > 0 && req.header.body_format == 1 ==> match codec::beve_parsed(req.body) {
            Ok(v) => registry_body(req) == Ok::<Option<Value>, (ErrorCode, Seq<char>)>(Some(v)),
            Err(_) => registry_body(req) matches Err(e) && e.0 == ErrorCode::ParseError,
        },
        req.body.len() > 0 && (req.header.body_format == 0 || req.header.body_format > 3) ==> (
        registry_body(req) matches Err(e) && e.0 == ErrorCode::InvalidBody),
{
}

/// A registry is asked for what lies behind its prefix; the prefix itself stands
/// for its root, and at the root every path is its own pointer.
pub proof fn a_registry_is_asked_for_what_lies_behind_its_prefix(
    prefix: Seq<char>,
    rest: Seq<char>,
)
    ensures
        registry_pointer(prefix, prefix) == Some("/"@),
        prefix.len() > 0 ==> registry_pointer(prefix, prefix + seq!['/'] + rest) == Some(
            seq!['/'] + rest,
        ),
        rest.len() > 0 ==> registry_pointer(Seq::empty(), rest) == Some(rest),
{
    path::a_root_covers_whole_segments(prefix, '/', rest);
    let at = prefix + seq!['/'] + rest;
    assert(at.len() > prefix.len());
}

/// A request to a registry is what the registry is asked, with the context of the
/// call, and is answered with what the registry made of it.
pub proof fn a_request_reaches_the_registry<G: Registry>(
    r: RegisteredRegistry<G>,
    req: MessageModel,
    ctx: Option<CtxModel>,
    out: Outcome,
    pointer: Seq<char>,
    body: Option<Value>,
)
    requires
        r.answers(req, ctx, out),
        vstd::utf8::valid_utf8(req.query),
        registry_pointer(r.mounted_at(), vstd::utf8::decode_utf8(req.query)) == Some(pointer),
        registry_body(req) == Ok::<Option<Value>, (ErrorCode, Seq<char>)>(body),
    ensures
        exists|came: RegistryOutcome| #[trigger]
            r.backend().dispatches(pointer, body, ctx, came) && match came {
                Ok(v) => out == message::value_reply(req.header, v, BodyFormat::Json),
                Err(e) => out matches Ok(m) && m.header.id == req.header.id && m.header.ec
                    == e.0.wire() && m.body == vstd::utf8::encode_utf8(e.1),
            },
{
    let came = choose|res: RegistryOutcome| #[trigger]
        r.backend().dispatches(pointer, body, ctx, res) && out == registry_reply(req.header, res);
    assert(r.backend().dispatches(pointer, body, ctx, came));
}

/// A path that a mount does not cover is a missing method to it.
pub proof fn a_mount_does_not_answer_for_others<L: Lockable, G: Registry>(
    s: RegisteredStruct<L>,
    r: RegisteredRegistry<G>,
    req: MessageModel,
    ctx: Option<CtxModel>,
    out: Outcome,
)
    requires
        vstd::utf8::valid_utf8(req.query),
    ensures
        s.answers(req, ctx, out) && !path::lies_below(
            s.mounted_at(),
            vstd::utf8::decode_utf8(req.query),
        ) ==> (out matches Ok(m) && m.header.id == req.header.id && m.header.ec
            == ErrorCode::MethodNotFound.wire()),
        r.answers(req, ctx, out) && !path::lies_below(
            r.mounted_at(),
            vstd::utf8::decode_utf8(req.query),
        ) ==> (out matches Ok(m) && m.header.id == req.header.id && m.header.ec
            == ErrorCode::MethodNotFound.wire()),
{
    a_mount_covers_what_lies_below_it(s.mounted_at(), handler::query_text(req.query));
    a_mount_covers_what_lies_below_it(r.mounted_at(), handler::query_text(req.query));
}

/// A mount point is kept with one leading `/`, whether it was given one or not,
/// and the root is kept empty.
pub proof fn a_mount_point_needs_no_leading_slash(root: Seq<char>)
    requires
        root.len() > 0,
        root[0] != '/',
    ensures
        normalized(root) == seq!['/'] + root,
        normalized(seq!['/'] + root) == seq!['/'] + root,
        normalized("/"@) == Seq::<char>::empty(),
        normalized(Seq::empty()) == Seq::<char>::empty(),
{
    reveal_strlit("/");
    assert("/"@ =~= seq!['/']);
    let r = seq!['/'] + root;
    assert(r.len() >= 2);
}

} // verus!
