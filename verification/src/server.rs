//! The router: which handler serves a path.
//!
//! A router is described by its [`RouterModel`]: the routes, the mounts, the
//! fallback and the middleware that were registered. Which handler serves a
//! path depends on the model alone, so it does not matter in which order the
//! parts were registered.

use crate::constants::ErrorCode;
use crate::error::RepeError;
use crate::handler;
use crate::handler::{
    Execution, HandlerErased, JsonHandler, JsonHandlerCtx, Middleware,
    MiddlewarePipeline, MountFallthrough, OffReaderHandler, Outcome,
};
use crate::message::{Message, MessageModel, MessageView};
use crate::mount;
use crate::mount::{Lockable, RegisteredRegistry, RegisteredStruct, Registry};
use crate::path;
use crate::path::matches_root;
use crate::peer::{CallContext, CtxModel};
use crate::text::text_equal;
use crate::typed::{
    JsonTypedAdapter, JsonTypedHandler, TypedHandler, TypedHandlerCtx, TypedHandlerFn,
    TypedHandlerFnCtx, TypedSliceFn, TypedSliceHandler, TypedSliceRefHandler,
};
use serde_json::Value;
use std::sync::Arc;
use vstd::prelude::*;

verus! {

// ---- handlers in a router ----

/// A handler type that can stand for the handler type `X`.
pub trait Erases<X: HandlerErased>: HandlerErased + Sized {
    /// Takes the place of `x`: it runs where `x` runs and may answer what `x`
    /// may answer.
    fn erase(x: X) -> (h: Self)
        ensures
            h.runs() == x.runs(),
            forall|req: MessageModel, ctx: Option<CtxModel>, out: Outcome| #[trigger]
                h.answers(req, ctx, out) == x.answers(req, ctx, out),
    ;
}

impl<L: Lockable> Erases<RegisteredStruct<L>> for RegisteredStruct<L> {
    fn erase(x: RegisteredStruct<L>) -> (h: RegisteredStruct<L>) {
        x
    }
}

impl<G: Registry> Erases<RegisteredRegistry<G>> for RegisteredRegistry<G> {
    fn erase(x: RegisteredRegistry<G>) -> (h: RegisteredRegistry<G>) {
        x
    }
}

impl<F: Fn(Value) -> Result<Value, (ErrorCode, String)>> Erases<JsonHandler<F>> for JsonHandler<
    F,
> {
    fn erase(x: JsonHandler<F>) -> (h: JsonHandler<F>) {
        x
    }
}

impl<
    F: Fn(&CallContext<'_>, Value) -> Result<Value, (ErrorCode, String)>,
> Erases<JsonHandlerCtx<F>> for JsonHandlerCtx<F> {
    fn erase(x: JsonHandlerCtx<F>) -> (h: JsonHandlerCtx<F>) {
        x
    }
}

impl<F: TypedHandlerFn> Erases<TypedHandler<F>> for TypedHandler<F> {
    fn erase(x: TypedHandler<F>) -> (h: TypedHandler<F>) {
        x
    }
}

impl<F: TypedHandlerFnCtx> Erases<TypedHandlerCtx<F>> for TypedHandlerCtx<F> {
    fn erase(x: TypedHandlerCtx<F>) -> (h: TypedHandlerCtx<F>) {
        x
    }
}

impl<F: TypedSliceFn> Erases<TypedSliceHandler<F>> for TypedSliceHandler<F> {
    fn erase(x: TypedSliceHandler<F>) -> (h: TypedSliceHandler<F>) {
        x
    }
}

impl<F: TypedSliceFn> Erases<TypedSliceRefHandler<F>> for TypedSliceRefHandler<F> {
    fn erase(x: TypedSliceRefHandler<F>) -> (h: TypedSliceRefHandler<F>) {
        x
    }
}

/// A handler as it was registered.
pub enum RawHandler<H> {
    Plain(Arc<H>),
    /// Run off the reader, whatever the handler itself wants.
    Blocking(OffReaderHandler<Arc<H>>),
}

impl<H> RawHandler<H> {
    /// Another handle to the same handler.
    pub fn share(&self) -> (r: RawHandler<H>)
        ensures
            r == *self,
    {
        match self {
            RawHandler::Plain(h) => RawHandler::Plain(h.clone()),
            RawHandler::Blocking(h) => RawHandler::Blocking(OffReaderHandler(h.0.clone())),
        }
    }
}

impl<H: HandlerErased> HandlerErased for RawHandler<H> {
    open spec fn answers(&self, req: MessageModel, ctx: Option<CtxModel>, out: Outcome) -> bool {
        match *self {
            RawHandler::Plain(h) => h.answers(req, ctx, out),
            RawHandler::Blocking(h) => h.answers(req, ctx, out),
        }
    }

    open spec fn runs(&self) -> Execution {
        match *self {
            RawHandler::Plain(h) => h.runs(),
            RawHandler::Blocking(h) => h.runs(),
        }
    }

    fn handle(&self, req: &Message) -> (r: Result<Message, RepeError>) {
        match self {
            RawHandler::Plain(h) => h.handle(req),
            RawHandler::Blocking(h) => h.handle(req),
        }
    }

    fn handle_with_ctx(&self, req: &Message, ctx: &CallContext<'_>) -> (r: Result<
        Message,
        RepeError,
    >) {
        match self {
            RawHandler::Plain(h) => h.handle_with_ctx(req, ctx),
            RawHandler::Blocking(h) => h.handle_with_ctx(req, ctx),
        }
    }

    fn handle_view(&self, view: &MessageView<'_>, ctx: &CallContext<'_>) -> (r: Result<
        Message,
        RepeError,
    >) {
        match self {
            RawHandler::Plain(h) => h.handle_view(view, ctx),
            RawHandler::Blocking(h) => h.handle_view(view, ctx),
        }
    }

    fn execution(&self) -> (e: Execution) {
        match self {
            RawHandler::Plain(h) => h.execution(),
            RawHandler::Blocking(h) => h.execution(),
        }
    }
}

/// What stands behind the middleware: a handler, or a mount and the fallback
/// that gets its misses.
pub enum Composed<H> {
    Single(RawHandler<H>),
    Fallthrough(MountFallthrough<RawHandler<H>>),
}

impl<H> Composed<H> {
    /// Another handle to the same handlers.
    pub fn share(&self) -> (r: Composed<H>)
        ensures
            r == *self,
    {
        match self {
            Composed::Single(h) => Composed::Single(h.share()),
            Composed::Fallthrough(f) => Composed::Fallthrough(
                MountFallthrough { mount: f.mount.share(), fallback: f.fallback.share() },
            ),
        }
    }
}

impl<H: HandlerErased> HandlerErased for Composed<H> {
    open spec fn answers(&self, req: MessageModel, ctx: Option<CtxModel>, out: Outcome) -> bool {
        match *self {
            Composed::Single(h) => h.answers(req, ctx, out),
            Composed::Fallthrough(f) => f.answers(req, ctx, out),
        }
    }

    open spec fn runs(&self) -> Execution {
        match *self {
            Composed::Single(h) => h.runs(),
            Composed::Fallthrough(f) => f.runs(),
        }
    }

    fn handle(&self, req: &Message) -> (r: Result<Message, RepeError>) {
        match self {
            Composed::Single(h) => h.handle(req),
            Composed::Fallthrough(f) => f.handle(req),
        }
    }

    fn handle_with_ctx(&self, req: &Message, ctx: &CallContext<'_>) -> (r: Result<
        Message,
        RepeError,
    >) {
        match self {
            Composed::Single(h) => h.handle_with_ctx(req, ctx),
            Composed::Fallthrough(f) => f.handle_with_ctx(req, ctx),
        }
    }

    fn handle_view(&self, view: &MessageView<'_>, ctx: &CallContext<'_>) -> (r: Result<
        Message,
        RepeError,
    >) {
        match self {
            Composed::Single(h) => h.handle_view(view, ctx),
            Composed::Fallthrough(f) => f.handle_view(view, ctx),
        }
    }

    fn execution(&self) -> (e: Execution) {
        match self {
            Composed::Single(h) => h.execution(),
            Composed::Fallthrough(f) => f.execution(),
        }
    }
}

/// A handler as it is dispatched: behind the middleware, if there is any.
pub enum Dispatched<H, M> {
    Direct(Composed<H>),
    Piped(MiddlewarePipeline<Composed<H>, M>),
}

/// What a [`Dispatched`] is made of.
#[verifier::ext_equal]
pub struct DispatchModel<H, M> {
    pub composed: Composed<H>,
    pub middlewares: Seq<Arc<M>>,
}

impl<H: HandlerErased, M: Middleware<Composed<H>>> DispatchModel<H, M> {
    /// Whether `out` is a possible outcome of `req`.
    pub open spec fn answers(
        self,
        req: MessageModel,
        ctx: Option<CtxModel>,
        out: Outcome,
    ) -> bool {
        handler::chain(self.middlewares, self.composed, ctx)(req, out)
    }

    /// Where the handler wants to run.
    pub open spec fn runs(self) -> Execution {
        self.composed.runs()
    }
}

impl<H, M> View for Dispatched<H, M> {
    type V = DispatchModel<H, M>;

    open spec fn view(&self) -> DispatchModel<H, M> {
        match *self {
            Dispatched::Direct(c) => DispatchModel { composed: c, middlewares: Seq::empty() },
            Dispatched::Piped(p) => DispatchModel {
                composed: p.handler,
                middlewares: p.middlewares@,
            },
        }
    }
}

impl<H, M> Dispatched<H, M> {
    /// Another handle to the same handler.
    pub fn share(&self) -> (r: Dispatched<H, M>)
        ensures
            r == *self,
    {
        match self {
            Dispatched::Direct(c) => Dispatched::Direct(c.share()),
            Dispatched::Piped(p) => Dispatched::Piped(
                MiddlewarePipeline { handler: p.handler.share(), middlewares: p.middlewares.clone() },
            ),
        }
    }
}

impl<H: HandlerErased, M: Middleware<Composed<H>>> HandlerErased for Dispatched<H, M> {
    open spec fn answers(&self, req: MessageModel, ctx: Option<CtxModel>, out: Outcome) -> bool {
        self@.answers(req, ctx, out)
    }

    open spec fn runs(&self) -> Execution {
        self@.runs()
    }

    fn handle(&self, req: &Message) -> (r: Result<Message, RepeError>) {
        match self {
            Dispatched::Direct(c) => c.handle(req),
            Dispatched::Piped(p) => p.handle(req),
        }
    }

    fn handle_with_ctx(&self, req: &Message, ctx: &CallContext<'_>) -> (r: Result<
        Message,
        RepeError,
    >) {
        match self {
            Dispatched::Direct(c) => c.handle_with_ctx(req, ctx),
            Dispatched::Piped(p) => p.handle_with_ctx(req, ctx),
        }
    }

    fn handle_view(&self, view: &MessageView<'_>, ctx: &CallContext<'_>) -> (r: Result<
        Message,
        RepeError,
    >) {
        match self {
            Dispatched::Direct(c) => c.handle_view(view, ctx),
            Dispatched::Piped(p) => p.handle_view(view, ctx),
        }
    }

    fn execution(&self) -> (e: Execution) {
        match self {
            Dispatched::Direct(c) => c.execution(),
            Dispatched::Piped(p) => p.execution(),
        }
    }
}

/// Puts a handler behind the middleware, if there is any.
fn wrap_with_middlewares<H, M>(composed: Composed<H>, middlewares: &Arc<Vec<Arc<M>>>) -> (d:
    Dispatched<H, M>)
    ensures
        d@ == (DispatchModel { composed, middlewares: middlewares@ }),
{
    if middlewares.len() == 0 {
        assert(middlewares@ =~= Seq::<Arc<M>>::empty());
        Dispatched::Direct(composed)
    } else {
        Dispatched::Piped(
            MiddlewarePipeline { handler: composed, middlewares: middlewares.clone() },
        )
    }
}

// ---- the router ----

/// A fixed route.
pub struct RouteEntry<H, M> {
    path: String,
    raw: RawHandler<H>,
    dispatched: Dispatched<H, M>,
}

/// A mount: everything below its prefix is its own.
pub struct MountEntry<H, M> {
    prefix: String,
    raw: RawHandler<H>,
    dispatched: Dispatched<H, M>,
}

impl<H, M> MountEntry<H, M> {
    /// Where the mount is.
    pub closed spec fn at(self) -> Seq<char> {
        self.prefix@
    }

    /// Whether the mount answers for a path.
    pub fn matches(&self, at: &str) -> (r: bool)
        ensures
            r == path::lies_below(self.at(), at@),
    {
        matches_root(self.prefix.as_str(), at)
    }
}

/// A handler as it was registered, and as it is dispatched.
pub struct RouterMapEntry<H, M> {
    raw: RawHandler<H>,
    dispatched: Dispatched<H, M>,
}

/// A mount as it was registered.
pub struct MountModel<H> {
    pub prefix: Seq<char>,
    pub raw: RawHandler<H>,
}

/// What was registered with a router.
#[verifier::ext_equal]
pub struct RouterModel<H, M> {
    pub routes: Map<Seq<char>, RawHandler<H>>,
    pub registries: Seq<MountModel<H>>,
    pub structs: Seq<MountModel<H>>,
    pub fallback: Option<RawHandler<H>>,
    pub middlewares: Seq<Arc<M>>,
    /// Whether a mount hands its misses to the fallback.
    pub mount_fallthrough: bool,
}

/// The first mount that answers for a path.
pub open spec fn first_mount<H>(mounts: Seq<MountModel<H>>, at: Seq<char>) -> Option<RawHandler<H>>
    decreases mounts.len(),
{
    if mounts.len() == 0 {
        None
    } else if path::lies_below(mounts[0].prefix, at) {
        Some(mounts[0].raw)
    } else {
        first_mount(mounts.drop_first(), at)
    }
}

impl<H, M> RouterModel<H, M> {
    /// A router with nothing in it.
    pub open spec fn blank() -> RouterModel<H, M> {
        RouterModel {
            routes: Map::empty(),
            registries: Seq::empty(),
            structs: Seq::empty(),
            fallback: None,
            middlewares: Seq::empty(),
            mount_fallthrough: false,
        }
    }

    /// A handler behind the middleware.
    pub open spec fn wrapped(self, composed: Composed<H>) -> DispatchModel<H, M> {
        DispatchModel { composed, middlewares: self.middlewares }
    }

    /// A mount as it is dispatched: with the fallback behind it where mounts
    /// fall through and there is one.
    pub open spec fn mounted(self, raw: RawHandler<H>) -> DispatchModel<H, M> {
        self.wrapped(
            match self.fallback {
                Some(fallback) => if self.mount_fallthrough {
                    Composed::Fallthrough(MountFallthrough { mount: raw, fallback })
                } else {
                    Composed::Single(raw)
                },
                None => Composed::Single(raw),
            },
        )
    }

    /// The handler that serves a path: a fixed route, else the first registry
    /// that answers for it, else the first struct that does, else the fallback.
    pub open spec fn resolve(self, at: Seq<char>) -> Option<DispatchModel<H, M>> {
        if self.routes.contains_key(at) {
            Some(self.wrapped(Composed::Single(self.routes[at])))
        } else {
            match first_mount(self.registries, at) {
                Some(raw) => Some(self.mounted(raw)),
                None => match first_mount(self.structs, at) {
                    Some(raw) => Some(self.mounted(raw)),
                    None => match self.fallback {
                        Some(raw) => Some(self.wrapped(Composed::Single(raw))),
                        None => None,
                    },
                },
            }
        }
    }

    /// After a fixed route was registered.
    pub open spec fn with_route(self, at: Seq<char>, raw: RawHandler<H>) -> RouterModel<H, M> {
        RouterModel { routes: self.routes.insert(at, raw), ..self }
    }

    /// After a fallback was registered.
    pub open spec fn with_fallback(self, raw: RawHandler<H>) -> RouterModel<H, M> {
        RouterModel { fallback: Some(raw), ..self }
    }

    /// After a stage of middleware was registered.
    pub open spec fn with_middleware(self, m: Arc<M>) -> RouterModel<H, M> {
        RouterModel { middlewares: self.middlewares.push(m), ..self }
    }

    /// After a registry was mounted.
    pub open spec fn with_registry(self, prefix: Seq<char>, raw: RawHandler<H>) -> RouterModel<
        H,
        M,
    > {
        RouterModel { registries: self.registries.push(MountModel { prefix, raw }), ..self }
    }

    /// After a struct was mounted.
    pub open spec fn with_struct(self, prefix: Seq<char>, raw: RawHandler<H>) -> RouterModel<H, M> {
        RouterModel { structs: self.structs.push(MountModel { prefix, raw }), ..self }
    }

    /// After falling through was switched on or off.
    pub open spec fn with_fallthrough(self, enabled: bool) -> RouterModel<H, M> {
        RouterModel { mount_fallthrough: enabled, ..self }
    }
}

/// Position of the route for a path.
spec fn route_index<H, M>(entries: Seq<RouteEntry<H, M>>, at: Seq<char>) -> int {
    choose|i: int| 0 <= i < entries.len() && (#[trigger] entries[i]).path@ == at
}

/// Whether there is a route for a path.
spec fn has_route<H, M>(entries: Seq<RouteEntry<H, M>>, at: Seq<char>) -> bool {
    exists|i: int| 0 <= i < entries.len() && (#[trigger] entries[i]).path@ == at
}

/// The routes by their paths.
spec fn routes_of<H, M>(entries: Seq<RouteEntry<H, M>>) -> Map<Seq<char>, RawHandler<H>> {
    Map::new(
        |at: Seq<char>| has_route(entries, at),
        |at: Seq<char>| entries[route_index(entries, at)].raw,
    )
}

/// No path has two routes.
spec fn unique_paths<H, M>(entries: Seq<RouteEntry<H, M>>) -> bool {
    forall|i: int, j: int|
        0 <= i < entries.len() && 0 <= j < entries.len() && (#[trigger] entries[i]).path@ == (
        #[trigger] entries[j]).path@ ==> i == j
}

/// The mounts as they were registered.
spec fn mounts_of<H, M>(entries: Seq<MountEntry<H, M>>) -> Seq<MountModel<H>> {
    Seq::new(entries.len(), |i: int| MountModel { prefix: entries[i].prefix@, raw: entries[i].raw })
}

/// Maps a path to the handler that serves it. `H` is the type of handlers, `M`
/// the type of middleware.
pub struct Router<H, M> {
    inner: Vec<RouteEntry<H, M>>,
    structs: Vec<MountEntry<H, M>>,
    registries: Vec<MountEntry<H, M>>,
    fallback: Option<RouterMapEntry<H, M>>,
    middlewares: Arc<Vec<Arc<M>>>,
    mount_fallthrough: bool,
}

impl<H, M> View for Router<H, M> {
    type V = RouterModel<H, M>;

    closed spec fn view(&self) -> RouterModel<H, M> {
        RouterModel {
            routes: routes_of(self.inner@),
            registries: mounts_of(self.registries@),
            structs: mounts_of(self.structs@),
            fallback: match self.fallback {
                Some(e) => Some(e.raw),
                None => None,
            },
            middlewares: self.middlewares@,
            mount_fallthrough: self.mount_fallthrough,
        }
    }
}

impl<H, M> Router<H, M> {
    /// The routes are kept in the form in which they are dispatched.
    spec fn routes_wf(self) -> bool {
        &&& unique_paths(self.inner@)
        &&& forall|i: int|
            0 <= i < self.inner@.len() ==> (#[trigger] self.inner@[i]).dispatched@ == self@.wrapped(
                Composed::Single(self.inner@[i].raw),
            )
        &&& self.fallback matches Some(e) ==> e.dispatched@ == self@.wrapped(
            Composed::Single(e.raw),
        )
    }

    /// The mounts are kept in the form in which they are dispatched.
    spec fn mounts_wf(self) -> bool {
        &&& forall|i: int|
            0 <= i < self.registries@.len() ==> (#[trigger] self.registries@[i]).dispatched@
                == self@.mounted(self.registries@[i].raw)
        &&& forall|i: int|
            0 <= i < self.structs@.len() ==> (#[trigger] self.structs@[i]).dispatched@
                == self@.mounted(self.structs@[i].raw)
    }

    /// Everything is kept in the form in which it is dispatched.
    pub closed spec fn wf(self) -> bool {
        self.routes_wf() && self.mounts_wf()
    }

    /// A router with nothing in it.
    pub fn new() -> (r: Router<H, M>)
        ensures
            r.wf(),
            r@ == RouterModel::<H, M>::blank(),
    {
        let r = Router {
            inner: Vec::new(),
            structs: Vec::new(),
            registries: Vec::new(),
            fallback: None,
            middlewares: Arc::new(Vec::new()),
            mount_fallthrough: false,
        };
        proof {
            assert(r@.routes =~= Map::<Seq<char>, RawHandler<H>>::empty());
            assert(r@.registries =~= Seq::<MountModel<H>>::empty());
            assert(r@.structs =~= Seq::<MountModel<H>>::empty());
            assert(r@.middlewares =~= Seq::<Arc<M>>::empty());
        }
        r
    }

    /// A mount in the form in which it is dispatched. Every mount and every
    /// rebuild goes through here, so that the order of registration does not
    /// matter.
    fn mount_dispatched(&self, raw: &RawHandler<H>) -> (d: Dispatched<H, M>)
        ensures
            d@ == self@.mounted(*raw),
    {
        let composed = match (self.mount_fallthrough, &self.fallback) {
            (true, Some(fallback)) => Composed::Fallthrough(
                MountFallthrough { mount: raw.share(), fallback: fallback.raw.share() },
            ),
            _ => Composed::Single(raw.share()),
        };
        wrap_with_middlewares(composed, &self.middlewares)
    }

    /// The given mounts, in the form in which they are dispatched now.
    fn rebuilt(&self, entries: &Vec<MountEntry<H, M>>) -> (r: Vec<MountEntry<H, M>>)
        ensures
            mounts_of(r@) == mounts_of(entries@),
            forall|i: int|
                0 <= i < r@.len() ==> (#[trigger] r@[i]).dispatched@ == self@.mounted(r@[i].raw),
    {
        let n: usize = entries.len();
        let mut r: Vec<MountEntry<H, M>> = Vec::new();
        let mut i: usize = 0;
        while i < n
            invariant
                i <= n,
                n == entries@.len(),
                r@.len() == i,
                forall|j: int|
                    0 <= j < i ==> (#[trigger] r@[j]).prefix@ == entries@[j].prefix@ && r@[j].raw
                        == entries@[j].raw && r@[j].dispatched@ == self@.mounted(r@[j].raw),
            decreases n - i,
        {
            let e = &entries[i];
            r.push(
                MountEntry {
                    prefix: e.prefix.clone(),
                    raw: e.raw.share(),
                    dispatched: self.mount_dispatched(&e.raw),
                },
            );
            i = i + 1;
        }
        assert(mounts_of(r@) =~= mounts_of(entries@));
        r
    }

    /// Brings every mount into the form in which it is dispatched now. To be
    /// done when the fallback, the middleware or falling through changes.
    fn rebuild_mount_dispatch(&mut self)
        requires
            old(self).routes_wf(),
        ensures
            final(self).wf(),
            final(self)@ == old(self)@,
    {
        let registries = self.rebuilt(&self.registries);
        let structs = self.rebuilt(&self.structs);
        self.registries = registries;
        self.structs = structs;
        assert(self@ =~= old(self)@);
    }

    /// Registers a handler for a path, in place of one that was there.
    fn insert_route(&mut self, at: &str, raw: RawHandler<H>)
        requires
            old(self).wf(),
        ensures
            final(self).wf(),
            final(self)@ == old(self)@.with_route(at@, raw),
    {
        let dispatched = wrap_with_middlewares(Composed::Single(raw.share()), &self.middlewares);
        let entry = RouteEntry { path: at.to_owned(), raw, dispatched };
        let ghost before = self.inner@;
        let ghost e = entry;
        let n: usize = self.inner.len();
        let mut i: usize = 0;
        while i < n && !text_equal(self.inner[i].path.as_str(), at)
            invariant
                i <= n,
                n == before.len(),
                *self == *old(self),
                before == self.inner@,
                forall|j: int| 0 <= j < i ==> (#[trigger] before[j]).path@ != at@,
            decreases n - i,
        {
            i = i + 1;
        }
        if i < n {
            self.inner.set(i, entry);
        } else {
            self.inner.push(entry);
        }
        proof {
            let after = self.inner@;
            assert(after[i as int] == e);
            assert(unique_paths(after));
            assert forall|at2: Seq<char>| #[trigger]
                routes_of(after).contains_key(at2) == routes_of(before).insert(at@, raw)
                    .contains_key(at2) by {
                if has_route(after, at2) {
                    let k = route_index(after, at2);
                    if k != i {
                        assert(before[k].path@ == at2);
                    }
                }
                if has_route(before, at2) && at2 != at@ {
                    let k = route_index(before, at2);
                    assert(after[k].path@ == at2);
                }
            }
            assert forall|at2: Seq<char>| #[trigger]
                routes_of(after).contains_key(at2) implies routes_of(after)[at2] == routes_of(
                before,
            ).insert(at@, raw)[at2] by {
                let k = route_index(after, at2);
                if k == i {
                    assert(at2 == at@);
                } else {
                    assert(before[k].path@ == at2);
                    let b = route_index(before, at2);
                    assert(before[b].path@ == at2);
                    assert(after[b].path@ == at2);
                    assert(at2 != at@);
                }
            }
            assert(routes_of(after) =~= routes_of(before).insert(at@, raw));
            assert(self@ =~= old(self)@.with_route(at@, raw));
        }
    }

    /// Serves a path with a handler.
    pub fn with_erased_handler(self, at: &str, handler: Arc<H>) -> (r: Router<H, M>)
        requires
            self.wf(),
        ensures
            r.wf(),
            r@ == self@.with_route(at@, RawHandler::Plain(handler)),
    {
        let mut r = self;
        r.insert_route(at, RawHandler::Plain(handler));
        r
    }

    /// Serves everything that is not registered with `handler`, which has to
    /// answer for whatever it does not serve.
    pub fn with_fallback(self, handler: Arc<H>) -> (r: Router<H, M>)
        requires
            self.wf(),
        ensures
            r.wf(),
            r@ == self@.with_fallback(RawHandler::Plain(handler)),
    {
        let mut r = self;
        r.register_fallback(handler);
        r
    }

    /// Sets the fallback, in place of one that was there.
    fn set_fallback(&mut self, raw: RawHandler<H>)
        requires
            old(self).wf(),
        ensures
            final(self).wf(),
            final(self)@ == old(self)@.with_fallback(raw),
    {
        let dispatched = wrap_with_middlewares(Composed::Single(raw.share()), &self.middlewares);
        self.fallback = Some(RouterMapEntry { raw, dispatched });
        assert(self@ =~= old(self)@.with_fallback(raw));
        self.rebuild_mount_dispatch();
    }

    /// Sets the fallback, in place of one that was there.
    pub fn register_fallback(&mut self, handler: Arc<H>)
        requires
            old(self).wf(),
        ensures
            final(self).wf(),
            final(self)@ == old(self)@.with_fallback(RawHandler::Plain(handler)),
    {
        self.set_fallback(RawHandler::Plain(handler));
    }

    /// Like [`with_fallback`](Self::with_fallback), off the reader.
    pub fn with_fallback_blocking(self, handler: Arc<H>) -> (r: Router<H, M>)
        requires
            self.wf(),
        ensures
            r.wf(),
            r@ == self@.with_fallback(RawHandler::Blocking(OffReaderHandler(handler))),
    {
        let mut r = self;
        r.register_fallback_blocking(handler);
        r
    }

    /// Like [`register_fallback`](Self::register_fallback), off the reader.
    pub fn register_fallback_blocking(&mut self, handler: Arc<H>)
        requires
            old(self).wf(),
        ensures
            final(self).wf(),
            final(self)@ == old(self)@.with_fallback(
                RawHandler::Blocking(OffReaderHandler(handler)),
            ),
    {
        self.set_fallback(RawHandler::Blocking(OffReaderHandler(handler)));
    }

    /// Lets a mount hand its misses to the fallback.
    pub fn with_mount_fallthrough(self) -> (r: Router<H, M>)
        requires
            self.wf(),
        ensures
            r.wf(),
            r@ == self@.with_fallthrough(true),
    {
        let mut r = self;
        r.set_mount_fallthrough(true);
        r
    }

    /// Switches on or off that a mount hands its misses to the fallback.
    pub fn set_mount_fallthrough(&mut self, enabled: bool)
        requires
            old(self).wf(),
        ensures
            final(self).wf(),
            final(self)@ == old(self)@.with_fallthrough(enabled),
    {
        if self.mount_fallthrough == enabled {
            assert(self@ =~= old(self)@.with_fallthrough(enabled));
            return;
        }
        self.mount_fallthrough = enabled;
        assert(self@ =~= old(self)@.with_fallthrough(enabled));
        self.rebuild_mount_dispatch();
    }

    /// Puts a stage behind the middleware that is there, in front of every
    /// handler.
    pub fn with_middleware(self, middleware: M) -> (r: Router<H, M>)
        requires
            self.wf(),
        ensures
            r.wf(),
            r@ == self@.with_middleware(Arc::new(middleware)),
    {
        let mut r = self;
        r.register_middleware(middleware);
        r
    }

    /// Puts a stage behind the middleware that is there, in front of every
    /// handler, those registered before it too.
    pub fn register_middleware(&mut self, middleware: M) -> (m: Arc<M>)
        requires
            old(self).wf(),
        ensures
            final(self).wf(),
            *m == middleware,
            final(self)@ == old(self)@.with_middleware(m),
    {
        let m: Arc<M> = Arc::new(middleware);
        let ghost before = self.middlewares@;
        let k: usize = self.middlewares.len();
        let mut list: Vec<Arc<M>> = Vec::new();
        let mut i: usize = 0;
        while i < k
            invariant
                i <= k,
                k == self.middlewares@.len(),
                list@.len() == i,
                forall|j: int| 0 <= j < i ==> #[trigger] list@[j] == self.middlewares@[j],
            decreases k - i,
        {
            list.push(self.middlewares[i].clone());
            i = i + 1;
        }
        list.push(m.clone());
        assert(list@ =~= before.push(m));
        let middlewares: Arc<Vec<Arc<M>>> = Arc::new(list);
        let n: usize = self.inner.len();
        let mut inner: Vec<RouteEntry<H, M>> = Vec::new();
        let mut i: usize = 0;
        while i < n
            invariant
                i <= n,
                n == self.inner@.len(),
                inner@.len() == i,
                forall|j: int|
                    0 <= j < i ==> (#[trigger] inner@[j]).path@ == self.inner@[j].path@
                        && inner@[j].raw == self.inner@[j].raw && inner@[j].dispatched@ == (
                    DispatchModel {
                        composed: Composed::Single(inner@[j].raw),
                        middlewares: middlewares@,
                    }),
            decreases n - i,
        {
            let e = &self.inner[i];
            inner.push(
                RouteEntry {
                    path: e.path.clone(),
                    raw: e.raw.share(),
                    dispatched: wrap_with_middlewares(
                        Composed::Single(e.raw.share()),
                        &middlewares,
                    ),
                },
            );
            i = i + 1;
        }
        let fallback = match &self.fallback {
            Some(e) => Some(
                RouterMapEntry {
                    raw: e.raw.share(),
                    dispatched: wrap_with_middlewares(
                        Composed::Single(e.raw.share()),
                        &middlewares,
                    ),
                },
            ),
            None => None,
        };
        proof {
            same_routes(self.inner@, inner@);
        }
        self.inner = inner;
        self.fallback = fallback;
        self.middlewares = middlewares;
        proof {
            assert(self@ =~= old(self)@.with_middleware(m));
            assert(unique_paths(self.inner@)) by {
                assert forall|i: int, j: int|
                    0 <= i < self.inner@.len() && 0 <= j < self.inner@.len() && (
                    #[trigger] self.inner@[i]).path@ == (#[trigger] self.inner@[j]).path@ implies i
                    == j by {
                    assert(old(self).inner@[i].path@ == old(self).inner@[j].path@);
                }
            }
        }
        self.rebuild_mount_dispatch();
        m
    }
}

/// Entries with the same paths and handlers are the same routes.
proof fn same_routes<H, M>(a: Seq<RouteEntry<H, M>>, b: Seq<RouteEntry<H, M>>)
    requires
        a.len() == b.len(),
        unique_paths(a),
        forall|j: int|
            0 <= j < a.len() ==> (#[trigger] b[j]).path@ == a[j].path@ && b[j].raw == a[j].raw,
    ensures
        routes_of(a) == routes_of(b),
{
    assert forall|at: Seq<char>| #[trigger] routes_of(a).contains_key(at) == routes_of(
        b,
    ).contains_key(at) by {
        if has_route(a, at) {
            let k = route_index(a, at);
            assert(b[k].path@ == at);
        }
        if has_route(b, at) {
            let k = route_index(b, at);
            assert(a[k].path@ == at);
        }
    }
    assert forall|at: Seq<char>| #[trigger]
        routes_of(a).contains_key(at) implies routes_of(a)[at] == routes_of(b)[at] by {
        let k = route_index(a, at);
        assert(b[k].path@ == at);
        let j = route_index(b, at);
        assert(b[j].path@ == at);
        assert(a[j].path@ == at);
        assert(a[k].path@ == at);
    }
    assert(routes_of(a) =~= routes_of(b));
}

/// The first of `entries` that answers for a path.
fn find_mount<'a, H, M>(entries: &'a Vec<MountEntry<H, M>>, at: &str) -> (r: Option<
    &'a MountEntry<H, M>,
>)
    ensures
        match r {
            Some(e) => entries@.contains(*e) && first_mount(mounts_of(entries@), at@) == Some(
                e.raw,
            ),
            None => first_mount(mounts_of(entries@), at@) is None,
        },
{
    let n: usize = entries.len();
    let mut i: usize = 0;
    let ghost mounts = mounts_of(entries@);
    assert(mounts.subrange(0, n as int) =~= mounts);
    while i < n
        invariant
            i <= n,
            n == entries@.len(),
            mounts == mounts_of(entries@),
            first_mount(mounts, at@) == first_mount(mounts.subrange(i as int, n as int), at@),
        decreases n - i,
    {
        let ghost left = mounts.subrange(i as int, n as int);
        assert(left[0] == mounts[i as int]);
        assert(left.drop_first() =~= mounts.subrange(i + 1, n as int));
        if entries[i].matches(at) {
            assert(entries@[i as int] == entries@[i as int]);
            return Some(&entries[i]);
        }
        i = i + 1;
    }
    None
}

impl<H: HandlerErased, M: Middleware<Composed<H>>> Router<H, M> {
    /// The handler that serves a path, if there is one.
    pub fn get(&self, at: &str) -> (r: Option<Dispatched<H, M>>)
        requires
            self.wf(),
        ensures
            match r {
                Some(d) => self@.resolve(at@) == Some(d@),
                None => self@.resolve(at@) is None,
            },
    {
        let n: usize = self.inner.len();
        let mut i: usize = 0;
        while i < n
            invariant
                i <= n,
                n == self.inner@.len(),
                self.wf(),
                forall|j: int| 0 <= j < i ==> (#[trigger] self.inner@[j]).path@ != at@,
            decreases n - i,
        {
            if text_equal(self.inner[i].path.as_str(), at) {
                proof {
                    assert(self.inner@[i as int].path@ == at@);
                    assert(has_route(self.inner@, at@));
                    let k = route_index(self.inner@, at@);
                    assert(self.inner@[k].path@ == at@);
                }
                return Some(self.inner[i].dispatched.share());
            }
            i = i + 1;
        }
        assert(!has_route(self.inner@, at@));
        if let Some(e) = find_mount(&self.registries, at) {
            return Some(e.dispatched.share());
        }
        if let Some(e) = find_mount(&self.structs, at) {
            return Some(e.dispatched.share());
        }
        match &self.fallback {
            Some(e) => Some(e.dispatched.share()),
            None => None,
        }
    }

    /// Mounts a registry under a prefix.
    pub fn with_registry<G: Registry>(self, path_prefix: &str, registry: Arc<G>) -> (r: Router<
        H,
        M,
    >) where H: Erases<RegisteredRegistry<G>>
        requires
            self.wf(),
        ensures
            r.wf(),
            mounted_registry(self@, path_prefix@, registry, r@),
    {
        let mut r = self;
        r.register_registry(path_prefix, registry);
        r
    }

    /// Mounts a registry under a prefix.
    pub fn register_registry<G: Registry>(&mut self, path_prefix: &str, registry: Arc<G>) -> (g:
        Arc<G>) where H: Erases<RegisteredRegistry<G>>
        requires
            old(self).wf(),
        ensures
            final(self).wf(),
            g == registry,
            mounted_registry(old(self)@, path_prefix@, registry, final(self)@),
    {
        let registered = RegisteredRegistry::new(path_prefix, registry.clone());
        let prefix = registered.prefix().to_owned();
        let ghost mount = registered;
        let h: Arc<H> = Arc::new(H::erase(registered));
        let raw = RawHandler::Plain(h);
        let dispatched = self.mount_dispatched(&raw);
        self.registries.push(MountEntry { prefix, raw, dispatched });
        proof {
            assert(mount.mounted_at() == mount::normalized(path_prefix@));
            assert(self@ =~= old(self)@.with_registry(
                mount::normalized(path_prefix@),
                RawHandler::Plain(h),
            ));
            assert(stands_for(*h, mount));
        }
        registry
    }

    /// Mounts a struct at a root.
    pub fn with_struct_shared<L: Lockable>(self, root: &str, shared: Arc<L>) -> (r: Router<
        H,
        M,
    >) where H: Erases<RegisteredStruct<L>>
        requires
            self.wf(),
        ensures
            r.wf(),
            mounted_struct(self@, root@, shared, r@),
    {
        let mut r = self;
        r.register_struct_shared(root, shared);
        r
    }

    /// Mounts a struct at a root.
    pub fn register_struct_shared<L: Lockable>(&mut self, root: &str, shared: Arc<L>) -> (l: Arc<
        L,
    >) where H: Erases<RegisteredStruct<L>>
        requires
            old(self).wf(),
        ensures
            final(self).wf(),
            l == shared,
            mounted_struct(old(self)@, root@, shared, final(self)@),
    {
        let registered = RegisteredStruct::new(root, shared.clone());
        let prefix = registered.root().to_owned();
        let ghost mount = registered;
        let h: Arc<H> = Arc::new(H::erase(registered));
        let raw = RawHandler::Plain(h);
        let dispatched = self.mount_dispatched(&raw);
        self.structs.push(MountEntry { prefix, raw, dispatched });
        proof {
            assert(mount.mounted_at() == mount::normalized(root@));
            assert(self@ =~= old(self)@.with_struct(
                mount::normalized(root@),
                RawHandler::Plain(h),
            ));
            assert(stands_for(*h, mount));
        }
        shared
    }

    /// Serves a path with a function from value to value.
    pub fn with_json<F: Fn(Value) -> Result<Value, (ErrorCode, String)>>(
        self,
        at: &str,
        f: F,
    ) -> (r: Router<H, M>) where H: Erases<JsonHandler<F>>
        requires
            self.wf(),
            forall|v: Value| call_requires(f, (v,)),
        ensures
            r.wf(),
            exists|x: JsonHandler<F>, h: Arc<H>| #[trigger]
                stands_for(*h, x) && x.function() == f && r@ == self@.with_route(
                    at@,
                    RawHandler::Plain(h),
                ),
    {
        let mut r = self;
        let x = JsonHandler::new(f);
        let ghost gx = x;
        let h: Arc<H> = Arc::new(H::erase(x));
        r.insert_route(at, RawHandler::Plain(h));
        assert(stands_for(*h, gx));
        r
    }

    /// Another name of [`with_json`](Self::with_json).
    pub fn with<F: Fn(Value) -> Result<Value, (ErrorCode, String)>>(self, at: &str, f: F) -> (r:
        Router<H, M>) where H: Erases<JsonHandler<F>>
        requires
            self.wf(),
            forall|v: Value| call_requires(f, (v,)),
        ensures
            r.wf(),
            exists|x: JsonHandler<F>, h: Arc<H>| #[trigger]
                stands_for(*h, x) && x.function() == f && r@ == self@.with_route(
                    at@,
                    RawHandler::Plain(h),
                ),
    {
        self.with_json(at, f)
    }

    /// Serves a path with a function from context and value to value.
    pub fn with_json_ctx<
        F: Fn(&CallContext<'_>, Value) -> Result<Value, (ErrorCode, String)>,
    >(self, at: &str, f: F) -> (r: Router<H, M>) where H: Erases<JsonHandlerCtx<F>>
        requires
            self.wf(),
            forall|c: &CallContext<'_>, v: Value| call_requires(f, (c, v)),
        ensures
            r.wf(),
            exists|x: JsonHandlerCtx<F>, h: Arc<H>| #[trigger]
                stands_for(*h, x) && x.function() == f && r@ == self@.with_route(
                    at@,
                    RawHandler::Plain(h),
                ),
    {
        let mut r = self;
        let x = JsonHandlerCtx::new(f);
        let ghost gx = x;
        let h: Arc<H> = Arc::new(H::erase(x));
        r.insert_route(at, RawHandler::Plain(h));
        assert(stands_for(*h, gx));
        r
    }

    /// Like [`with_json`](Self::with_json), off the reader.
    pub fn with_json_blocking<F: Fn(Value) -> Result<Value, (ErrorCode, String)>>(
        self,
        at: &str,
        f: F,
    ) -> (r: Router<H, M>) where H: Erases<JsonHandler<F>>
        requires
            self.wf(),
            forall|v: Value| call_requires(f, (v,)),
        ensures
            r.wf(),
            exists|x: JsonHandler<F>, h: Arc<H>| #[trigger]
                stands_for(*h, x) && x.function() == f && r@ == self@.with_route(
                    at@,
                    RawHandler::Blocking(OffReaderHandler(h)),
                ),
    {
        let mut r = self;
        let x = JsonHandler::new(f);
        let ghost gx = x;
        let h: Arc<H> = Arc::new(H::erase(x));
        r.insert_route(at, RawHandler::Blocking(OffReaderHandler(h)));
        assert(stands_for(*h, gx));
        r
    }

    /// Like [`with_json_ctx`](Self::with_json_ctx), off the reader.
    pub fn with_json_ctx_blocking<
        F: Fn(&CallContext<'_>, Value) -> Result<Value, (ErrorCode, String)>,
    >(self, at: &str, f: F) -> (r: Router<H, M>) where H: Erases<JsonHandlerCtx<F>>
        requires
            self.wf(),
            forall|c: &CallContext<'_>, v: Value| call_requires(f, (c, v)),
        ensures
            r.wf(),
            exists|x: JsonHandlerCtx<F>, h: Arc<H>| #[trigger]
                stands_for(*h, x) && x.function() == f && r@ == self@.with_route(
                    at@,
                    RawHandler::Blocking(OffReaderHandler(h)),
                ),
    {
        let mut r = self;
        let x = JsonHandlerCtx::new(f);
        let ghost gx = x;
        let h: Arc<H> = Arc::new(H::erase(x));
        r.insert_route(at, RawHandler::Blocking(OffReaderHandler(h)));
        assert(stands_for(*h, gx));
        r
    }

    /// Serves a path with a function that has types of its own.
    pub fn with_typed<F: TypedHandlerFn>(self, at: &str, f: F) -> (r: Router<
        H,
        M,
    >) where H: Erases<TypedHandler<F>>
        requires
            self.wf(),
        ensures
            r.wf(),
            routed(self@, at@, TypedHandler(f), false, r@),
    {
        let mut r = self;
        let x = TypedHandler(f);
        let ghost gx = x;
        let h: Arc<H> = Arc::new(H::erase(x));
        r.insert_route(at, RawHandler::Plain(h));
        assert(stands_for(*h, gx));
        r
    }

    /// Like [`with_typed`](Self::with_typed), off the reader.
    pub fn with_typed_blocking<F: TypedHandlerFn>(self, at: &str, f: F) -> (r: Router<
        H,
        M,
    >) where H: Erases<TypedHandler<F>>
        requires
            self.wf(),
        ensures
            r.wf(),
            routed(self@, at@, TypedHandler(f), true, r@),
    {
        let mut r = self;
        let x = TypedHandler(f);
        let ghost gx = x;
        let h: Arc<H> = Arc::new(H::erase(x));
        r.insert_route(at, RawHandler::Blocking(OffReaderHandler(h)));
        assert(stands_for(*h, gx));
        r
    }

    /// Serves a path with a function that has types of its own and takes the
    /// context.
    pub fn with_typed_ctx<F: TypedHandlerFnCtx>(self, at: &str, f: F) -> (r: Router<
        H,
        M,
    >) where H: Erases<TypedHandlerCtx<F>>
        requires
            self.wf(),
        ensures
            r.wf(),
            routed(self@, at@, TypedHandlerCtx(f), false, r@),
    {
        let mut r = self;
        let x = TypedHandlerCtx(f);
        let ghost gx = x;
        let h: Arc<H> = Arc::new(H::erase(x));
        r.insert_route(at, RawHandler::Plain(h));
        assert(stands_for(*h, gx));
        r
    }

    /// Like [`with_typed_ctx`](Self::with_typed_ctx), off the reader.
    pub fn with_typed_ctx_blocking<F: TypedHandlerFnCtx>(self, at: &str, f: F) -> (r: Router<
        H,
        M,
    >) where H: Erases<TypedHandlerCtx<F>>
        requires
            self.wf(),
        ensures
            r.wf(),
            routed(self@, at@, TypedHandlerCtx(f), true, r@),
    {
        let mut r = self;
        let x = TypedHandlerCtx(f);
        let ghost gx = x;
        let h: Arc<H> = Arc::new(H::erase(x));
        r.insert_route(at, RawHandler::Blocking(OffReaderHandler(h)));
        assert(stands_for(*h, gx));
        r
    }

    /// Serves a path with a function from numbers to numbers.
    pub fn with_typed_slice<F: TypedSliceFn>(self, at: &str, f: F) -> (r: Router<
        H,
        M,
    >) where H: Erases<TypedSliceHandler<F>>
        requires
            self.wf(),
        ensures
            r.wf(),
            routed(self@, at@, TypedSliceHandler(f), false, r@),
    {
        let mut r = self;
        let x = TypedSliceHandler(f);
        let ghost gx = x;
        let h: Arc<H> = Arc::new(H::erase(x));
        r.insert_route(at, RawHandler::Plain(h));
        assert(stands_for(*h, gx));
        r
    }

    /// Serves a path with a function from numbers to numbers that borrows them from
    /// the request where it can.
    pub fn with_typed_slice_ref<F: TypedSliceFn>(self, at: &str, f: F) -> (r: Router<
        H,
        M,
    >) where H: Erases<TypedSliceRefHandler<F>>
        requires
            self.wf(),
        ensures
            r.wf(),
            routed(self@, at@, TypedSliceRefHandler(f), false, r@),
    {
        let mut r = self;
        let x = TypedSliceRefHandler(f);
        let ghost gx = x;
        let h: Arc<H> = Arc::new(H::erase(x));
        r.insert_route(at, RawHandler::Plain(h));
        assert(stands_for(*h, gx));
        r
    }

    /// Serves a path with an object that has types of its own.
    pub fn with_handler<F: JsonTypedHandler>(self, at: &str, f: F) -> (r: Router<
        H,
        M,
    >) where H: Erases<TypedHandler<JsonTypedAdapter<F>>>
        requires
            self.wf(),
        ensures
            r.wf(),
            routed(self@, at@, TypedHandler(JsonTypedAdapter(f)), false, r@),
    {
        let mut r = self;
        let x = TypedHandler(JsonTypedAdapter(f));
        let ghost gx = x;
        let h: Arc<H> = Arc::new(H::erase(x));
        r.insert_route(at, RawHandler::Plain(h));
        assert(stands_for(*h, gx));
        r
    }
}

/// Whether `after` is `before` with `x` serving the path `at`, off the reader
/// where `blocking` says so.
pub open spec fn routed<H: HandlerErased, M, X: HandlerErased>(
    before: RouterModel<H, M>,
    at: Seq<char>,
    x: X,
    blocking: bool,
    after: RouterModel<H, M>,
) -> bool {
    exists|h: Arc<H>| #[trigger]
        stands_for(*h, x) && after == before.with_route(
            at,
            if blocking {
                RawHandler::Blocking(OffReaderHandler(h))
            } else {
                RawHandler::Plain(h)
            },
        )
}

/// Whether `h` can stand for `x`: it runs where `x` runs and may answer what
/// `x` may answer.
pub open spec fn stands_for<H: HandlerErased, X: HandlerErased>(h: H, x: X) -> bool {
    &&& h.runs() == x.runs()
    &&& forall|req: MessageModel, ctx: Option<CtxModel>, out: Outcome| #[trigger]
        h.answers(req, ctx, out) == x.answers(req, ctx, out)
}

/// Whether `after` is `before` with `registry` mounted under `prefix`.
pub open spec fn mounted_registry<H: HandlerErased, M, G: Registry>(
    before: RouterModel<H, M>,
    prefix: Seq<char>,
    registry: Arc<G>,
    after: RouterModel<H, M>,
) -> bool {
    exists|x: RegisteredRegistry<G>, h: Arc<H>| #[trigger]
        stands_for(*h, x) && x.mounted_at() == mount::normalized(prefix) && x.backend() == registry
            && after == before.with_registry(mount::normalized(prefix), RawHandler::Plain(h))
}

/// Whether `after` is `before` with `shared` mounted at `root`.
pub open spec fn mounted_struct<H: HandlerErased, M, L: Lockable>(
    before: RouterModel<H, M>,
    root: Seq<char>,
    shared: Arc<L>,
    after: RouterModel<H, M>,
) -> bool {
    exists|x: RegisteredStruct<L>, h: Arc<H>| #[trigger]
        stands_for(*h, x) && x.mounted_at() == mount::normalized(root) && x.locked() == shared
            && after == before.with_struct(mount::normalized(root), RawHandler::Plain(h))
}

impl<H, M> Default for Router<H, M> {
    fn default() -> (r: Router<H, M>)
        ensures
            r.wf(),
            r@ == RouterModel::<H, M>::blank(),
    {
        Router::new()
    }
}

// ---- what holds of every router ----

/// A mount is found if and only if one answers for the path, and the one that
/// is found was registered.
pub proof fn a_mount_is_found_where_one_covers_the_path<H>(
    mounts: Seq<MountModel<H>>,
    at: Seq<char>,
)
    ensures
        first_mount(mounts, at) is Some == exists|i: int|
            0 <= i < mounts.len() && path::lies_below((#[trigger] mounts[i]).prefix, at),
        first_mount(mounts, at) matches Some(raw) ==> exists|i: int|
            0 <= i < mounts.len() && (#[trigger] mounts[i]).raw == raw && path::lies_below(
                mounts[i].prefix,
                at,
            ) && forall|j: int|
                0 <= j < i ==> !path::lies_below((#[trigger] mounts[j]).prefix, at),
    decreases mounts.len(),
{
    if mounts.len() > 0 {
        if path::lies_below(mounts[0].prefix, at) {
            assert(mounts[0].raw == mounts[0].raw);
        } else {
            let rest = mounts.drop_first();
            a_mount_is_found_where_one_covers_the_path(rest, at);
            if let Some(raw) = first_mount(rest, at) {
                let i = choose|i: int|
                    0 <= i < rest.len() && (#[trigger] rest[i]).raw == raw && path::lies_below(
                        rest[i].prefix,
                        at,
                    ) && forall|j: int|
                        0 <= j < i ==> !path::lies_below((#[trigger] rest[j]).prefix, at);
                assert(mounts[i + 1] == rest[i]);
                assert forall|j: int| 0 <= j < i + 1 implies !path::lies_below(
                    (#[trigger] mounts[j]).prefix,
                    at,
                ) by {
                    if j > 0 {
                        assert(mounts[j] == rest[j - 1]);
                    }
                }
            }
            if exists|i: int|
                0 <= i < mounts.len() && path::lies_below((#[trigger] mounts[i]).prefix, at) {
                let i = choose|i: int|
                    0 <= i < mounts.len() && path::lies_below((#[trigger] mounts[i]).prefix, at);
                assert(rest[i - 1] == mounts[i]);
            }
        }
    }
}

/// A fixed route wins over every mount and the fallback.
pub proof fn a_fixed_route_wins<H, M>(m: RouterModel<H, M>, at: Seq<char>, raw: RawHandler<H>)
    ensures
        m.with_route(at, raw).resolve(at) == Some(m.wrapped(Composed::Single(raw))),
{
}

/// The fallback comes last: it serves a path if and only if no route and no
/// mount does, and with a fallback every path is served. Without one, a path is
/// served if and only if a route or a mount serves it.
pub proof fn the_fallback_comes_last<H, M>(m: RouterModel<H, M>, at: Seq<char>)
    ensures
        m.fallback is Some ==> m.resolve(at) is Some,
        m.fallback is None ==> (m.resolve(at) is Some == (m.routes.contains_key(at) || first_mount(
            m.registries,
            at,
        ) is Some || first_mount(m.structs, at) is Some)),
        !m.routes.contains_key(at) && first_mount(m.registries, at) is None && first_mount(
            m.structs,
            at,
        ) is None ==> m.resolve(at) == match m.fallback {
            Some(raw) => Some(m.wrapped(Composed::Single(raw))),
            None => None,
        },
{
}

/// A fallback takes no path from a route, and none from a mount as long as
/// mounts do not fall through.
pub proof fn a_fallback_shadows_nothing<H, M>(
    m: RouterModel<H, M>,
    at: Seq<char>,
    raw: RawHandler<H>,
)
    ensures
        m.routes.contains_key(at) ==> m.with_fallback(raw).resolve(at) == m.resolve(at),
        !m.mount_fallthrough && m.fallback is None && m.resolve(at) is Some ==> m.with_fallback(
            raw,
        ).resolve(at) == m.resolve(at),
{
}

/// Falling through changes nothing but the misses of mounts: a fixed route and
/// the fallback itself are served as before, and without a fallback nothing
/// changes at all.
pub proof fn falling_through_reorders_nothing<H, M>(
    m: RouterModel<H, M>,
    at: Seq<char>,
    enabled: bool,
)
    ensures
        m.routes.contains_key(at) ==> m.with_fallthrough(enabled).resolve(at) == m.resolve(at),
        m.fallback is None ==> m.with_fallthrough(enabled).resolve(at) == m.resolve(at),
        first_mount(m.registries, at) is None && first_mount(m.structs, at) is None
            ==> m.with_fallthrough(enabled).resolve(at) == m.resolve(at),
        m.with_fallthrough(enabled).resolve(at) is Some == m.resolve(at) is Some,
{
}

/// The order of registration does not matter: what was registered is the same
/// whichever of two different things came first.
pub proof fn registration_order_does_not_matter<H, M>(
    m: RouterModel<H, M>,
    at: Seq<char>,
    route: RawHandler<H>,
    fallback: RawHandler<H>,
    prefix: Seq<char>,
    mount: RawHandler<H>,
    stage: Arc<M>,
    enabled: bool,
)
    ensures
        m.with_fallback(fallback).with_fallthrough(enabled) == m.with_fallthrough(
            enabled,
        ).with_fallback(fallback),
        m.with_fallback(fallback).with_middleware(stage) == m.with_middleware(stage).with_fallback(
            fallback,
        ),
        m.with_fallback(fallback).with_route(at, route) == m.with_route(at, route).with_fallback(
            fallback,
        ),
        m.with_fallback(fallback).with_registry(prefix, mount) == m.with_registry(
            prefix,
            mount,
        ).with_fallback(fallback),
        m.with_fallback(fallback).with_struct(prefix, mount) == m.with_struct(
            prefix,
            mount,
        ).with_fallback(fallback),
        m.with_fallthrough(enabled).with_middleware(stage) == m.with_middleware(
            stage,
        ).with_fallthrough(enabled),
        m.with_fallthrough(enabled).with_registry(prefix, mount) == m.with_registry(
            prefix,
            mount,
        ).with_fallthrough(enabled),
        m.with_fallthrough(enabled).with_struct(prefix, mount) == m.with_struct(
            prefix,
            mount,
        ).with_fallthrough(enabled),
        m.with_fallthrough(enabled).with_route(at, route) == m.with_route(
            at,
            route,
        ).with_fallthrough(enabled),
        m.with_middleware(stage).with_route(at, route) == m.with_route(at, route).with_middleware(
            stage,
        ),
        m.with_middleware(stage).with_registry(prefix, mount) == m.with_registry(
            prefix,
            mount,
        ).with_middleware(stage),
        m.with_middleware(stage).with_struct(prefix, mount) == m.with_struct(
            prefix,
            mount,
        ).with_middleware(stage),
        m.with_route(at, route).with_registry(prefix, mount) == m.with_registry(
            prefix,
            mount,
        ).with_route(at, route),
        m.with_route(at, route).with_struct(prefix, mount) == m.with_struct(
            prefix,
            mount,
        ).with_route(at, route),
{
}

/// Every request runs through all the middleware, once and in the order of
/// registration, whatever serves it.
pub proof fn middleware_wraps_everything<H, M>(m: RouterModel<H, M>, at: Seq<char>)
    ensures
        m.resolve(at) matches Some(d) ==> d.middlewares == m.middlewares,
{
}

/// Middleware does not move a handler: it runs where it ran without.
pub proof fn middleware_keeps_the_execution<H: HandlerErased, M: Middleware<Composed<H>>>(
    m: RouterModel<H, M>,
    at: Seq<char>,
    stage: Arc<M>,
)
    ensures
        m.with_middleware(stage).resolve(at) is Some == m.resolve(at) is Some,
        m.resolve(at) matches Some(d) ==> m.with_middleware(stage).resolve(at)->0.runs()
            == d.runs(),
{
}

/// A fallback off the reader stays off the reader: alone, and behind a mount
/// that falls through to it.
pub proof fn a_blocking_fallback_stays_off_the_reader<
    H: HandlerErased,
    M: Middleware<Composed<H>>,
>(m: RouterModel<H, M>, at: Seq<char>, handler: Arc<H>)
    requires
        !m.routes.contains_key(at),
        m.mount_fallthrough || (first_mount(m.registries, at) is None && first_mount(
            m.structs,
            at,
        ) is None),
    ensures
        m.with_fallback(RawHandler::Blocking(OffReaderHandler(handler))).resolve(at) matches Some(d)
            && d.runs() == Execution::OffReader,
{
}

// ---- the TCP server ----

/// Settings of a TCP server. Times are milliseconds.
pub struct Server<H, M> {
    router: Router<H, M>,
    read_timeout: Option<u64>,
    write_timeout: Option<u64>,
    running: bool,
    tcp_nodelay: bool,
}

/// What a [`Server`] is set to.
#[verifier::ext_equal]
pub struct ServerModel<H, M> {
    pub router: RouterModel<H, M>,
    pub read_timeout: Option<u64>,
    pub write_timeout: Option<u64>,
    pub running: bool,
    pub tcp_nodelay: bool,
}

impl<H, M> View for Server<H, M> {
    type V = ServerModel<H, M>;

    closed spec fn view(&self) -> ServerModel<H, M> {
        ServerModel {
            router: self.router@,
            read_timeout: self.read_timeout,
            write_timeout: self.write_timeout,
            running: self.running,
            tcp_nodelay: self.tcp_nodelay,
        }
    }
}

impl<H, M> Server<H, M> {
    /// The router is well-formed.
    pub closed spec fn wf(self) -> bool {
        self.router.wf()
    }

    /// A server that does not run yet, without timeouts and without Nagle's
    /// algorithm.
    pub fn new(router: Router<H, M>) -> (s: Server<H, M>)
        requires
            router.wf(),
        ensures
            s.wf(),
            s@ == (ServerModel {
                router: router@,
                read_timeout: None,
                write_timeout: None,
                running: false,
                tcp_nodelay: true,
            }),
    {
        Server { router, read_timeout: None, write_timeout: None, running: false, tcp_nodelay: true }
    }

    pub fn read_timeout(self, d: Option<u64>) -> (s: Server<H, M>)
        ensures
            self.wf() ==> s.wf(),
            s@ == (ServerModel { read_timeout: d, ..self@ }),
    {
        let mut s = self;
        s.read_timeout = d;
        s
    }

    pub fn write_timeout(self, d: Option<u64>) -> (s: Server<H, M>)
        ensures
            self.wf() ==> s.wf(),
            s@ == (ServerModel { write_timeout: d, ..self@ }),
    {
        let mut s = self;
        s.write_timeout = d;
        s
    }

    /// Whether accepted connections send small packets at once.
    pub fn tcp_nodelay(self, enabled: bool) -> (s: Server<H, M>)
        ensures
            self.wf() ==> s.wf(),
            s@ == (ServerModel { tcp_nodelay: enabled, ..self@ }),
    {
        let mut s = self;
        s.tcp_nodelay = enabled;
        s
    }

    /// Marks the server as running.
    pub fn start(&mut self)
        ensures
            old(self).wf() ==> final(self).wf(),
            final(self)@ == (ServerModel { running: true, ..old(self)@ }),
    {
        self.running = true;
    }

    /// Marks the server as stopped: no further connection is accepted, and no
    /// further request is read.
    pub fn stop(&mut self)
        ensures
            old(self).wf() ==> final(self).wf(),
            final(self)@ == (ServerModel { running: false, ..old(self)@ }),
    {
        self.running = false;
    }

    pub fn is_running(&self) -> (r: bool)
        ensures
            r == self@.running,
    {
        self.running
    }

    pub fn router(&self) -> (r: &Router<H, M>)
        ensures
            r@ == self@.router,
            self.wf() ==> r.wf(),
    {
        &self.router
    }

    /// The read timeout, the write timeout, and whether small packets are sent
    /// at once.
    pub fn settings(&self) -> (s: (Option<u64>, Option<u64>, bool))
        ensures
            s.0 == self@.read_timeout,
            s.1 == self@.write_timeout,
            s.2 == self@.tcp_nodelay,
    {
        (self.read_timeout, self.write_timeout, self.tcp_nodelay)
    }
}

/// What was registered serves its path: a route its own path and no other, a
/// mount whatever lies below it unless something registered before does, and the
/// handler that is found is the one that was registered.
pub proof fn what_is_registered_is_found<H, M>(
    m: RouterModel<H, M>,
    at: Seq<char>,
    other: Seq<char>,
    prefix: Seq<char>,
    raw: RawHandler<H>,
)
    requires
        at != other,
    ensures
        m.with_route(at, raw).resolve(at) == Some(
            DispatchModel { composed: Composed::Single(raw), middlewares: m.middlewares },
        ),
        m.with_route(at, raw).resolve(other) == m.resolve(other),
        m.fallback is None && path::lies_below(prefix, at) && m.resolve(at) is None
            ==> m.with_registry(prefix, raw).resolve(at) == Some(
            DispatchModel { composed: Composed::Single(raw), middlewares: m.middlewares },
        ) && m.with_struct(prefix, raw).resolve(at) == Some(
            DispatchModel { composed: Composed::Single(raw), middlewares: m.middlewares },
        ),
        !path::lies_below(prefix, at) ==> m.with_registry(prefix, raw).resolve(at) == m.resolve(at)
            && m.with_struct(prefix, raw).resolve(at) == m.resolve(at),
        m.fallback is None && m.resolve(at) is None ==> m.with_fallback(raw).resolve(at) == Some(
            DispatchModel { composed: Composed::Single(raw), middlewares: m.middlewares },
        ),
        RouterModel::<H, M>::blank().resolve(at) is None,
        RouterModel::<H, M>::blank().middlewares.len() == 0,
{
    first_mount_of_more(m.registries, MountModel { prefix, raw }, at);
    first_mount_of_more(m.structs, MountModel { prefix, raw }, at);
    assert(m.with_route(at, raw).routes.contains_key(other) == m.routes.contains_key(other));
}

proof fn first_mount_of_more<H>(mounts: Seq<MountModel<H>>, more: MountModel<H>, at: Seq<char>)
    ensures
        first_mount(mounts.push(more), at) == match first_mount(mounts, at) {
            Some(raw) => Some(raw),
            None => if path::lies_below(more.prefix, at) {
                Some(more.raw)
            } else {
                None
            },
        },
    decreases mounts.len(),
{
    let all = mounts.push(more);
    if mounts.len() == 0 {
        assert(all.drop_first() =~= Seq::<MountModel<H>>::empty());
        assert(first_mount(all.drop_first(), at) is None);
    } else {
        assert(all.drop_first() =~= mounts.drop_first().push(more));
        first_mount_of_more(mounts.drop_first(), more, at);
    }
}

/// Registries come before structs, and within each the first that answers for a
/// path serves it. A mount hands its misses to the fallback exactly where mounts
/// fall through and there is a fallback.
pub proof fn mounts_are_asked_in_order<H, M>(m: RouterModel<H, M>, at: Seq<char>)
    requires
        !m.routes.contains_key(at),
    ensures
        first_mount(m.registries, at) matches Some(raw) ==> (m.resolve(at) matches Some(d)
            && d.middlewares == m.middlewares && d.composed == if m.mount_fallthrough && m.fallback
            is Some {
            Composed::Fallthrough(MountFallthrough { mount: raw, fallback: m.fallback->0 })
        } else {
            Composed::Single(raw)
        }),
        first_mount(m.registries, at) is None ==> (first_mount(m.structs, at) matches Some(raw) ==> (
        m.resolve(at) matches Some(d) && d.middlewares == m.middlewares && d.composed == if
            m.mount_fallthrough && m.fallback is Some {
            Composed::Fallthrough(MountFallthrough { mount: raw, fallback: m.fallback->0 })
        } else {
            Composed::Single(raw)
        })),
{
}

/// Without middleware a dispatched handler answers what it is made of: a route
/// what its handler answers, a blocking one the same off the reader, and a mount
/// with a fallback what either of them does.
pub proof fn a_handler_answers_as_what_it_is_made_of<
    H: HandlerErased,
    M: Middleware<Composed<H>>,
>(d: DispatchModel<H, M>, req: MessageModel, ctx: Option<CtxModel>, out: Outcome)
    requires
        d.middlewares.len() == 0,
    ensures
        d.composed matches Composed::Single(RawHandler::Plain(h)) ==> d.answers(req, ctx, out)
            == h.answers(req, ctx, out) && d.runs() == h.runs(),
        d.composed matches Composed::Single(RawHandler::Blocking(b)) ==> d.answers(req, ctx, out)
            == b.0.answers(req, ctx, out) && d.runs() == Execution::OffReader,
        d.composed matches Composed::Fallthrough(f) ==> d.answers(req, ctx, out)
            == handler::or_fallback(f.mount, f.fallback, req, ctx, out),
{
}

/// Middleware is added behind what there is, and falling through is switched as
/// asked; neither changes what serves a path without them.
pub proof fn registration_adds_what_was_asked<H, M>(
    m: RouterModel<H, M>,
    stage: Arc<M>,
    enabled: bool,
    raw: RawHandler<H>,
)
    ensures
        m.with_middleware(stage) == (RouterModel {
            middlewares: m.middlewares.push(stage),
            ..m
        }),
        m.with_fallthrough(enabled) == (RouterModel { mount_fallthrough: enabled, ..m }),
        m.with_fallback(raw) == (RouterModel { fallback: Some(raw), ..m }),
{
}

/// A handler that was registered for a path serves it, with what it would answer
/// by itself, and off the reader where that was asked; other paths are served as
/// before.
pub proof fn a_registered_handler_serves_its_path<H: HandlerErased, M, X: HandlerErased>(
    before: RouterModel<H, M>,
    at: Seq<char>,
    other: Seq<char>,
    x: X,
    blocking: bool,
    after: RouterModel<H, M>,
    req: MessageModel,
    ctx: Option<CtxModel>,
    out: Outcome,
)
    requires
        routed(before, at, x, blocking, after),
        other != at,
    ensures
        after.resolve(at) matches Some(d) && {
            &&& d.middlewares == before.middlewares
            &&& d.composed matches Composed::Single(raw)
            &&& raw.answers(req, ctx, out) <==> x.answers(req, ctx, out)
            &&& raw.runs() == if blocking {
                Execution::OffReader
            } else {
                x.runs()
            }
        },
        after.resolve(other) == before.resolve(other),
{
    let h = choose|h: Arc<H>| #[trigger]
        stands_for(*h, x) && after == before.with_route(
            at,
            if blocking {
                RawHandler::Blocking(OffReaderHandler(h))
            } else {
                RawHandler::Plain(h)
            },
        );
    assert(h.answers(req, ctx, out) == (*h).answers(req, ctx, out));
    assert((*h).answers(req, ctx, out) == x.answers(req, ctx, out));
    assert(after.routes.contains_key(other) == before.routes.contains_key(other));
}

/// Whether a handler stands for a struct that is mounted at `root`.
pub open spec fn is_struct_at<H: HandlerErased, L: Lockable>(
    raw: RawHandler<H>,
    root: Seq<char>,
    shared: Arc<L>,
) -> bool {
    exists|x: RegisteredStruct<L>| #[trigger]
        stands_for(raw, x) && x.mounted_at() == root && x.locked() == shared
}

/// Whether a handler stands for a registry that is mounted under `prefix`.
pub open spec fn is_registry_at<H: HandlerErased, G: Registry>(
    raw: RawHandler<H>,
    prefix: Seq<char>,
    registry: Arc<G>,
) -> bool {
    exists|x: RegisteredRegistry<G>| #[trigger]
        stands_for(raw, x) && x.mounted_at() == prefix && x.backend() == registry
}

/// A struct that was mounted serves what lies below its root, unless something else
/// did before, with its own lock; other paths are served as before.
pub proof fn a_mounted_struct_serves_what_lies_below_it<H: HandlerErased, M, L: Lockable>(
    before: RouterModel<H, M>,
    root: Seq<char>,
    shared: Arc<L>,
    after: RouterModel<H, M>,
    at: Seq<char>,
)
    requires
        mounted_struct(before, root, shared, after),
    ensures
        path::lies_below(mount::normalized(root), at) && before.resolve(at) is None && before.fallback
            is None ==> (after.resolve(at) matches Some(d) && {
            &&& d.middlewares == before.middlewares
            &&& d.composed matches Composed::Single(raw)
            &&& is_struct_at(raw, mount::normalized(root), shared)
        }),
        before.resolve(at) is Some && before.fallback is None ==> after.resolve(at)
            == before.resolve(at),
        !path::lies_below(mount::normalized(root), at) ==> after.resolve(at) == before.resolve(at),
{
    let (x, h) = choose|x: RegisteredStruct<L>, h: Arc<H>| #[trigger]
        stands_for(*h, x) && x.mounted_at() == mount::normalized(root) && x.locked() == shared
            && after == before.with_struct(mount::normalized(root), RawHandler::Plain(h));
    first_mount_of_more(
        before.structs,
        MountModel { prefix: mount::normalized(root), raw: RawHandler::Plain(h) },
        at,
    );
    assert(stands_for(*h, x));
    assert(stands_for(RawHandler::Plain(h), x));
    assert(is_struct_at(RawHandler::Plain(h), mount::normalized(root), shared));
}

/// A registry that was mounted serves what lies below its prefix, unless a route or
/// a registry did before; other paths are served as before.
pub proof fn a_mounted_registry_serves_what_lies_below_it<H: HandlerErased, M, G: Registry>(
    before: RouterModel<H, M>,
    prefix: Seq<char>,
    registry: Arc<G>,
    after: RouterModel<H, M>,
    at: Seq<char>,
)
    requires
        mounted_registry(before, prefix, registry, after),
    ensures
        path::lies_below(mount::normalized(prefix), at) && before.resolve(at) is None
            && before.fallback is None ==> (after.resolve(at) matches Some(d) && {
            &&& d.middlewares == before.middlewares
            &&& d.composed matches Composed::Single(raw)
            &&& is_registry_at(raw, mount::normalized(prefix), registry)
        }),
        before.routes.contains_key(at) || first_mount(before.registries, at) is Some
            ==> after.resolve(at) == before.resolve(at),
        !path::lies_below(mount::normalized(prefix), at) ==> after.resolve(at) == before.resolve(
            at,
        ),
{
    let (x, h) = choose|x: RegisteredRegistry<G>, h: Arc<H>| #[trigger]
        stands_for(*h, x) && x.mounted_at() == mount::normalized(prefix) && x.backend() == registry
            && after == before.with_registry(mount::normalized(prefix), RawHandler::Plain(h));
    first_mount_of_more(
        before.registries,
        MountModel { prefix: mount::normalized(prefix), raw: RawHandler::Plain(h) },
        at,
    );
    assert(stands_for(*h, x));
    assert(stands_for(RawHandler::Plain(h), x));
    assert(is_registry_at(RawHandler::Plain(h), mount::normalized(prefix), registry));
}

} // verus!
