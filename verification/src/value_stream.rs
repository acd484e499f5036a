//! Streaming of one large serialized value over ordinary requests.
//!
//! A producer turns a value into bytes, optionally compresses them, and cuts
//! them into chunks. A consumer opens the stream, pulls one chunk per request
//! until the one that is flagged as the last, and puts the bytes together
//! again. [`chunks_of`] says how the bytes are cut, [`pull_answer`] what a pull
//! gives.

use crate::codec;
use crate::constants::{BodyFormat, ErrorCode, QueryFormat};
use crate::error::{ErrorModel, IoError, IoKind, RepeError};
use crate::handler::{HandlerErased, Middleware};
use crate::message;
use crate::message::{create_error_message, Header, Message, MessageModel};
use crate::server::{Composed, RawHandler, Router};
use crate::text;
use crate::text::{concat2, concat3, u64_text};
use std::collections::{HashMap, VecDeque};
use std::sync::Arc;
use vstd::prelude::*;
use vstd::std_specs::hash::*;

verus! {

broadcast use vstd::std_specs::hash::group_hash_axioms;

/// Version of the stream contract.
pub const SVS_VERSION: u8 = 1;

/// Route that opens a stream.
pub const ROUTE_OPEN: &'static str = "/_svs/open";

/// Route that pulls the next chunk of a stream.
pub const ROUTE_NEXT: &'static str = "/_svs/next";

/// Route that releases a stream early.
pub const ROUTE_CANCEL: &'static str = "/_svs/cancel";

/// The codec over the serialized bytes.
#[derive(Debug, Clone, Copy, PartialEq, Eq, Structural)]
pub enum Compression {
    /// The chunks are the serialized value as it is.
    Plain,
    /// The chunks are a zstd frame over the serialized value.
    Zstd,
}

impl Compression {
    /// The tag of the codec on the wire.
    pub open spec fn wire(self) -> u8 {
        match self {
            Compression::Plain => 0,
            Compression::Zstd => 1,
        }
    }

    /// The codec with the given tag, if there is one.
    pub open spec fn of_wire(v: u8) -> Option<Compression> {
        if v == 0 {
            Some(Compression::Plain)
        } else if v == 1 {
            Some(Compression::Zstd)
        } else {
            None
        }
    }

    pub fn code(self) -> (v: u8)
        ensures
            v == self.wire(),
            Compression::of_wire(v) == Some(self),
    {
        match self {
            Compression::Plain => 0,
            Compression::Zstd => 1,
        }
    }

    pub fn from_u8(v: u8) -> (r: Option<Compression>)
        ensures
            r == Compression::of_wire(v),
    {
        if v == 0 {
            Some(Compression::Plain)
        } else if v == 1 {
            Some(Compression::Zstd)
        } else {
            None
        }
    }
}

/// Settings of a producer. None of them is on the wire.
#[derive(Debug, Clone, Copy, PartialEq, Eq, Structural)]
pub struct StreamOpts {
    /// Size of every chunk but the last.
    pub chunk_bytes: usize,
    pub compression: Compression,
    /// Level of the zstd codec.
    pub zstd_level: i32,
    /// How many chunks the producer may be ahead of the consumer.
    pub session_depth: usize,
}

impl Default for StreamOpts {
    fn default() -> (o: StreamOpts)
        ensures
            o.chunk_bytes == 1_048_576,
            o.compression == Compression::Zstd,
            o.zstd_level == 3,
            o.session_depth == 4,
    {
        StreamOpts {
            chunk_bytes: 1_048_576,
            compression: Compression::Zstd,
            zstd_level: 3,
            session_depth: 4,
        }
    }
}

// ---- cutting bytes into chunks ----

/// The full chunks of `n` bytes at the start of `b`.
pub open spec fn full_chunks(b: Seq<u8>, n: nat) -> Seq<Seq<u8>>
    decreases b.len(),
{
    if n == 0 || b.len() < n {
        Seq::empty()
    } else {
        seq![b.subrange(0, n as int)] + full_chunks(b.subrange(n as int, b.len() as int), n)
    }
}

/// What is left of `b` behind its full chunks of `n` bytes.
pub open spec fn chunk_rest(b: Seq<u8>, n: nat) -> Seq<u8>
    decreases b.len(),
{
    if n == 0 || b.len() < n {
        b
    } else {
        chunk_rest(b.subrange(n as int, b.len() as int), n)
    }
}

/// The chunks of a whole stream: full ones, and what is left.
pub open spec fn chunks_of(b: Seq<u8>, n: nat) -> Seq<Seq<u8>> {
    if chunk_rest(b, n).len() == 0 {
        full_chunks(b, n)
    } else {
        full_chunks(b, n).push(chunk_rest(b, n))
    }
}

/// The chunks put together.
pub open spec fn concat(chunks: Seq<Seq<u8>>) -> Seq<u8>
    decreases chunks.len(),
{
    if chunks.len() == 0 {
        Seq::empty()
    } else {
        chunks[0] + concat(chunks.drop_first())
    }
}

/// Putting one more chunk at the end puts its bytes at the end.
proof fn concat_push(chunks: Seq<Seq<u8>>, c: Seq<u8>)
    ensures
        concat(chunks.push(c)) == concat(chunks) + c,
    decreases chunks.len(),
{
    if chunks.len() == 0 {
        assert(chunks.push(c).drop_first() =~= Seq::<Seq<u8>>::empty());
        assert(concat(chunks.push(c).drop_first()) == Seq::<u8>::empty());
        assert(chunks.push(c)[0] == c);
        assert(c + Seq::<u8>::empty() =~= Seq::<u8>::empty() + c);
    } else {
        concat_push(chunks.drop_first(), c);
        assert(chunks.push(c).drop_first() =~= chunks.drop_first().push(c));
        assert(concat(chunks.push(c)) =~= concat(chunks) + c);
    }
}

/// Full chunks and rest are the bytes again, and the rest is short.
proof fn full_chunks_and_rest(b: Seq<u8>, n: nat)
    requires
        n > 0,
    ensures
        concat(full_chunks(b, n)) + chunk_rest(b, n) == b,
        chunk_rest(b, n).len() < n,
        forall|i: int|
            0 <= i < full_chunks(b, n).len() ==> (#[trigger] full_chunks(b, n)[i]).len() == n,
    decreases b.len(),
{
    if b.len() < n {
        assert(concat(full_chunks(b, n)) + chunk_rest(b, n) =~= b);
    } else {
        let head = b.subrange(0, n as int);
        let tail = b.subrange(n as int, b.len() as int);
        full_chunks_and_rest(tail, n);
        let all = full_chunks(b, n);
        assert(all.drop_first() =~= full_chunks(tail, n));
        assert(all[0] == head);
        assert(concat(all) == head + concat(full_chunks(tail, n)));
        assert(head + concat(full_chunks(tail, n)) + chunk_rest(b, n) =~= head + (concat(
            full_chunks(tail, n),
        ) + chunk_rest(tail, n)));
        assert(head + tail =~= b);
        assert forall|i: int| 0 <= i < all.len() implies (#[trigger] all[i]).len() == n by {
            if i > 0 {
                assert(all[i] == full_chunks(tail, n)[i - 1]);
            }
        }
    }
}

/// Nothing is lost and nothing is added when bytes are cut into chunks: put
/// together they are the bytes again. Every chunk but the last is full, and no
/// chunk is empty.
pub proof fn cutting_loses_nothing(b: Seq<u8>, n: nat)
    requires
        n > 0,
    ensures
        concat(chunks_of(b, n)) == b,
        forall|i: int|
            0 <= i < chunks_of(b, n).len() - 1 ==> (#[trigger] chunks_of(b, n)[i]).len() == n,
        forall|i: int|
            0 <= i < chunks_of(b, n).len() ==> 0 < (#[trigger] chunks_of(b, n)[i]).len() <= n,
{
    full_chunks_and_rest(b, n);
    let rest = chunk_rest(b, n);
    if rest.len() == 0 {
        assert(concat(full_chunks(b, n)) + rest =~= concat(full_chunks(b, n)));
    } else {
        concat_push(full_chunks(b, n), rest);
    }
}

/// Where the writes of a producer end does not matter: bytes written in two
/// parts are cut as if they were written at once.
pub proof fn cutting_ignores_write_boundaries(a: Seq<u8>, b: Seq<u8>, n: nat)
    requires
        n > 0,
    ensures
        full_chunks(a + b, n) == full_chunks(a, n) + full_chunks(chunk_rest(a, n) + b, n),
        chunk_rest(a + b, n) == chunk_rest(chunk_rest(a, n) + b, n),
    decreases a.len(),
{
    if a.len() < n {
        assert(full_chunks(a, n) + full_chunks(a + b, n) =~= full_chunks(a + b, n));
    } else {
        let head = a.subrange(0, n as int);
        let tail = a.subrange(n as int, a.len() as int);
        cutting_ignores_write_boundaries(tail, b, n);
        assert((a + b).subrange(0, n as int) =~= head);
        assert((a + b).subrange(n as int, (a + b).len() as int) =~= tail + b);
        assert(full_chunks(a + b, n) =~= full_chunks(a, n) + full_chunks(
            chunk_rest(a, n) + b,
            n,
        ));
    }
}

/// The bytes of each buffer.
pub open spec fn byte_views(v: Seq<Vec<u8>>) -> Seq<Seq<u8>> {
    Seq::new(v.len(), |i: int| v[i]@)
}

/// Collects the bytes of a producer into chunks of a fixed size. Finished
/// chunks wait in `ready` until they are taken.
pub struct ChunkSink {
    ready: Vec<Vec<u8>>,
    buf: Vec<u8>,
    chunk_bytes: usize,
}

impl ChunkSink {
    /// Chunks that wait to be taken.
    pub closed spec fn ready_chunks(self) -> Seq<Seq<u8>> {
        byte_views(self.ready@)
    }

    /// Bytes of the chunk that is not full yet.
    pub closed spec fn partial(self) -> Seq<u8> {
        self.buf@
    }

    /// Size of a full chunk.
    pub closed spec fn size(self) -> nat {
        self.chunk_bytes as nat
    }

    /// The partial chunk is short.
    pub closed spec fn wf(self) -> bool {
        self.buf@.len() < self.chunk_bytes
    }

    /// An empty sink for chunks of `chunk_bytes`.
    pub fn new(chunk_bytes: usize) -> (s: ChunkSink)
        requires
            chunk_bytes > 0,
        ensures
            s.wf(),
            s.size() == chunk_bytes,
            s.partial() == Seq::<u8>::empty(),
            s.ready_chunks() == Seq::<Seq<u8>>::empty(),
    {
        let s = ChunkSink { ready: Vec::new(), buf: Vec::new(), chunk_bytes };
        assert(s.ready_chunks() =~= Seq::<Seq<u8>>::empty());
        s
    }

    /// Moves what is collected to the finished chunks.
    fn send_chunk(&mut self)
        requires
            old(self).chunk_bytes > 0,
        ensures
            final(self).chunk_bytes == old(self).chunk_bytes,
            final(self).buf@ == Seq::<u8>::empty(),
            final(self).ready_chunks() == old(self).ready_chunks().push(old(self).buf@),
    {
        let ghost had = self.ready_chunks();
        let mut chunk: Vec<u8> = Vec::new();
        std::mem::swap(&mut chunk, &mut self.buf);
        self.ready.push(chunk);
        assert(self.ready_chunks() =~= had.push(old(self).buf@));
    }

    /// Takes bytes from the producer. Every chunk that fills up is finished.
    pub fn write(&mut self, data: &[u8])
        requires
            old(self).wf(),
        ensures
            final(self).wf(),
            final(self).size() == old(self).size(),
            final(self).ready_chunks() == old(self).ready_chunks() + full_chunks(
                old(self).partial() + data@,
                old(self).size(),
            ),
            final(self).partial() == chunk_rest(old(self).partial() + data@, old(self).size()),
    {
        let n: usize = data.len();
        let ghost size = self.size();
        let ghost had = self.ready_chunks();
        let ghost whole = self.buf@ + data@;
        let mut at: usize = 0;
        assert(data@.subrange(0, n as int) =~= data@);
        assert(had + full_chunks(whole, size) =~= self.ready_chunks() + full_chunks(
            self.buf@ + data@.subrange(0, n as int),
            size,
        ));
        while at < n
            invariant
                at <= n,
                n == data@.len(),
                size == self.chunk_bytes,
                size > 0,
                self.wf(),
                self.ready_chunks() + full_chunks(
                    self.buf@ + data@.subrange(at as int, n as int),
                    size,
                ) == had + full_chunks(whole, size),
                chunk_rest(self.buf@ + data@.subrange(at as int, n as int), size) == chunk_rest(
                    whole,
                    size,
                ),
            decreases n - at,
        {
            let space: usize = self.chunk_bytes - self.buf.len();
            let left: usize = n - at;
            let take: usize = if space <= left {
                space
            } else {
                left
            };
            let ghost before = self.buf@ + data@.subrange(at as int, n as int);
            let ghost buf = self.buf@;
            let part = vstd::slice::slice_subrange(data, at, at + take);
            self.buf.extend_from_slice(part);
            assert(self.buf@ =~= buf + data@.subrange(at as int, at + take));
            at = at + take;
            assert(self.buf@ + data@.subrange(at as int, n as int) =~= before);
            if self.buf.len() >= self.chunk_bytes {
                let ghost ready = self.ready_chunks();
                let ghost chunk = self.buf@;
                let ghost tail = data@.subrange(at as int, n as int);
                self.send_chunk();
                proof {
                    assert(before.subrange(0, size as int) =~= chunk);
                    assert(before.subrange(size as int, before.len() as int) =~= tail);
                    assert(self.buf@ + tail =~= tail);
                    assert(ready.push(chunk) + full_chunks(tail, size) =~= ready + (seq![chunk]
                        + full_chunks(tail, size)));
                }
            }
        }
        proof {
            assert(self.buf@ + data@.subrange(n as int, n as int) =~= self.buf@);
            assert(self.ready_chunks() + full_chunks(self.buf@, size) =~= self.ready_chunks());
        }
    }

    /// A flush does not end a chunk: where a chunk ends is a matter of its size.
    pub fn flush(&mut self)
        ensures
            *final(self) == *old(self),
    {
    }

    /// Finishes the partial chunk, if there is one.
    pub fn flush_remaining(&mut self)
        requires
            old(self).wf(),
        ensures
            final(self).wf(),
            final(self).size() == old(self).size(),
            final(self).partial() == Seq::<u8>::empty(),
            final(self).ready_chunks() == if old(self).partial().len() == 0 {
                old(self).ready_chunks()
            } else {
                old(self).ready_chunks().push(old(self).partial())
            },
    {
        if self.buf.len() > 0 {
            self.send_chunk();
        } else {
            assert(self.buf@ =~= Seq::<u8>::empty());
        }
    }

    /// Takes the finished chunks.
    pub fn take_ready(&mut self) -> (r: Vec<Vec<u8>>)
        ensures
            old(self).wf() ==> final(self).wf(),
            final(self).size() == old(self).size(),
            final(self).partial() == old(self).partial(),
            final(self).ready_chunks() == Seq::<Seq<u8>>::empty(),
            byte_views(r@) == old(self).ready_chunks(),
    {
        let mut r: Vec<Vec<u8>> = Vec::new();
        std::mem::swap(&mut r, &mut self.ready);
        assert(self.ready_chunks() =~= Seq::<Seq<u8>>::empty());
        r
    }
}

// ---- compression ----

/// What `zstd::stream::encode_all` makes of `content` at `level`: a frame, or the
/// text of its error.
pub uninterp spec fn zstd_frame(content: Seq<u8>, level: i32) -> Result<Seq<u8>, Seq<char>>;

/// What `zstd::stream::decode_all` makes of `bytes`: the content of the frames, or
/// the kind and the text of its error.
pub uninterp spec fn zstd_content(bytes: Seq<u8>) -> Result<Seq<u8>, (IoKind, Seq<char>)>;

/// The outcome of a decompression, with bytes and text as sequences.
pub open spec fn content_outcome(r: Result<Vec<u8>, IoError>) -> Result<
    Seq<u8>,
    (IoKind, Seq<char>),
> {
    match r {
        Ok(out) => Ok(out@),
        Err(e) => Err((e.kind, e.message@)),
    }
}

/// Whether decompressing `bytes` gives `content`.
pub open spec fn unpacks_to(bytes: Seq<u8>, content: Seq<u8>) -> bool {
    zstd_content(bytes) == Ok::<Seq<u8>, (IoKind, Seq<char>)>(content)
}

/// `zstd::stream::encode_all`. The outcome depends on the content and the level
/// alone, as long as there is memory, and decoding a frame gives the content
/// back.
#[verifier::external_body]
fn zstd_encode(content: &[u8], level: i32) -> (r: Result<Vec<u8>, String>)
    ensures
        codec::write_outcome(r) == zstd_frame(content@, level),
        r matches Ok(out) ==> unpacks_to(out@, content@),
{
    zstd::stream::encode_all(content, level).map_err(|e| e.to_string())
}

/// `zstd::stream::decode_all`. The outcome depends on the bytes alone, as long as
/// there is memory. Its errors are of kind `UnexpectedEof`, where a frame is cut
/// short, or `Other`.
#[verifier::external_body]
fn zstd_decode(bytes: &[u8]) -> (r: Result<Vec<u8>, IoError>)
    ensures
        content_outcome(r) == zstd_content(bytes@),
        r matches Err(e) ==> e.kind == IoKind::UnexpectedEof || e.kind == IoKind::Other,
{
    match zstd::stream::decode_all(bytes) {
        Ok(out) => Ok(out),
        Err(e) => {
            let kind = match e.kind() {
                std::io::ErrorKind::UnexpectedEof => IoKind::UnexpectedEof,
                _ => IoKind::Other,
            };
            Err(IoError { kind, message: e.to_string() })
        },
    }
}

/// What the codec makes of `content`: bytes, or the text of its error.
pub open spec fn encoded_content(content: Seq<u8>, opts: StreamOpts) -> Result<
    Seq<u8>,
    Seq<char>,
> {
    match opts.compression {
        Compression::Plain => Ok(content),
        Compression::Zstd => zstd_frame(content, opts.zstd_level),
    }
}

/// What the bytes of a stream stand for, or the error of bytes that the codec
/// does not take.
pub open spec fn decoded(bytes: Seq<u8>, compression: Compression) -> Result<Seq<u8>, ErrorModel> {
    match compression {
        Compression::Plain => Ok(bytes),
        Compression::Zstd => match zstd_content(bytes) {
            Ok(content) => Ok(content),
            Err((kind, message)) => Err(ErrorModel::Io { kind, message }),
        },
    }
}

/// Applies the codec to the content of a stream. Plain content is never
/// refused, and what comes out stands for the content.
pub fn encode_content(content: &[u8], opts: &StreamOpts) -> (r: Result<Vec<u8>, String>)
    ensures
        codec::write_outcome(r) == encoded_content(content@, *opts),
        r matches Ok(out) ==> decoded(out@, opts.compression) == Ok::<Seq<u8>, ErrorModel>(
            content@,
        ),
{
    match opts.compression {
        Compression::Plain => Ok(message::copy_bytes(content)),
        Compression::Zstd => zstd_encode(content, opts.zstd_level),
    }
}

/// Undoes the codec of a stream. Plain bytes are never refused; an error of the
/// codec is handed on as it is.
pub fn decode_content(bytes: &[u8], compression: Compression) -> (r: Result<Vec<u8>, RepeError>)
    ensures
        match r {
            Ok(out) => decoded(bytes@, compression) == Ok::<Seq<u8>, ErrorModel>(out@),
            Err(e) => decoded(bytes@, compression) == Err::<Seq<u8>, ErrorModel>(e@),
        },
        r matches Err(e) ==> e@ matches ErrorModel::Io { kind, .. } && (kind
            == IoKind::UnexpectedEof || kind == IoKind::Other),
{
    match compression {
        Compression::Plain => Ok(message::copy_bytes(bytes)),
        Compression::Zstd => match zstd_decode(bytes) {
            Ok(out) => Ok(out),
            Err(e) => Err(RepeError::Io(e)),
        },
    }
}

// ---- producer ----

/// One message from a producer to its consumer. The end is announced, so that
/// a production that broke off is never taken for a short one.
pub enum Msg {
    Chunk(Vec<u8>),
    End,
    Fail(String),
}

/// What a [`Msg`] says.
pub enum MsgModel {
    Chunk(Seq<u8>),
    End,
    Fail(Seq<char>),
}

impl View for Msg {
    type V = MsgModel;

    open spec fn view(&self) -> MsgModel {
        match *self {
            Msg::Chunk(c) => MsgModel::Chunk(c@),
            Msg::End => MsgModel::End,
            Msg::Fail(m) => MsgModel::Fail(m@),
        }
    }
}

/// What each message says.
pub open spec fn msg_models(msgs: Seq<Msg>) -> Seq<MsgModel> {
    Seq::new(msgs.len(), |i: int| msgs[i]@)
}

/// The messages that carry `chunks`.
pub open spec fn chunk_msgs(chunks: Seq<Seq<u8>>) -> Seq<MsgModel> {
    Seq::new(chunks.len(), |i: int| MsgModel::Chunk(chunks[i]))
}

/// The messages of a stream with the given bytes.
pub open spec fn stream_msgs(bytes: Seq<u8>, chunk_bytes: nat) -> Seq<MsgModel> {
    chunk_msgs(chunks_of(bytes, chunk_bytes)).push(MsgModel::End)
}

/// The message that ends a production: a failure is announced as such, so that
/// it is not taken for the end.
pub fn terminal(outcome: Result<(), String>) -> (m: Msg)
    ensures
        m@ == match outcome {
            Ok(_) => MsgModel::End,
            Err(e) => MsgModel::Fail(e@),
        },
{
    match outcome {
        Ok(_) => Msg::End,
        Err(e) => Msg::Fail(e),
    }
}

/// The messages of a production whose codec came back with `encoded`: its
/// chunks and the end, or the failure.
pub fn produce_encoded(encoded: Result<Vec<u8>, String>, chunk_bytes: usize) -> (r: Vec<Msg>)
    requires
        chunk_bytes > 0,
    ensures
        match encoded {
            Ok(bytes) => msg_models(r@) == stream_msgs(bytes@, chunk_bytes as nat),
            Err(m) => msg_models(r@) == seq![MsgModel::Fail(m@)],
        },
{
    let mut out: Vec<Msg> = Vec::new();
    match encoded {
        Ok(bytes) => {
            let mut sink = ChunkSink::new(chunk_bytes);
            sink.write(bytes.as_slice());
            proof {
                assert(Seq::<u8>::empty() + bytes@ =~= bytes@);
                assert(Seq::<Seq<u8>>::empty() + full_chunks(bytes@, chunk_bytes as nat)
                    =~= full_chunks(bytes@, chunk_bytes as nat));
            }
            sink.flush_remaining();
            let ghost chunks = sink.ready_chunks();
            assert(chunks == chunks_of(bytes@, chunk_bytes as nat));
            let ready = sink.take_ready();
            let n: usize = ready.len();
            let mut left: Vec<Vec<u8>> = ready;
            let mut i: usize = 0;
            assert(msg_models(out@) =~= chunk_msgs(chunks.subrange(0, 0)));
            while i < n
                invariant
                    i <= n,
                    n == left@.len(),
                    n == chunks.len(),
                    forall|j: int| i <= j < n ==> (#[trigger] left@[j])@ == chunks[j],
                    msg_models(out@) == chunk_msgs(chunks.subrange(0, i as int)),
                decreases n - i,
            {
                let ghost had = out@;
                let mut chunk: Vec<u8> = Vec::new();
                std::mem::swap(&mut chunk, &mut left[i]);
                assert(chunk@ == chunks[i as int]);
                out.push(Msg::Chunk(chunk));
                proof {
                    let next = chunk_msgs(chunks.subrange(0, i + 1));
                    assert(msg_models(out@) =~= msg_models(had).push(
                        MsgModel::Chunk(chunks[i as int]),
                    ));
                    assert(next =~= chunk_msgs(chunks.subrange(0, i as int)).push(
                        MsgModel::Chunk(chunks[i as int]),
                    ));
                }
                i = i + 1;
            }
            assert(chunks.subrange(0, n as int) =~= chunks);
            let ghost had = out@;
            out.push(terminal(Ok(())));
            assert(msg_models(out@) =~= msg_models(had).push(MsgModel::End));
        },
        Err(m) => {
            out.push(terminal(Err(m)));
            assert(msg_models(out@) =~= seq![out@[0]@]);
        },
    }
    out
}

/// Whether `msgs` is what a producer sends for `content`: the chunks of the
/// encoded content, from which the content can be had back, and the end. Where
/// the codec fails, and only there, its failure is announced instead.
pub open spec fn produced(content: Seq<u8>, opts: StreamOpts, msgs: Seq<MsgModel>) -> bool {
    match encoded_content(content, opts) {
        Ok(bytes) => {
            &&& msgs == stream_msgs(bytes, opts.chunk_bytes as nat)
            &&& decoded(bytes, opts.compression) == Ok::<Seq<u8>, ErrorModel>(content)
        },
        Err(m) => msgs == seq![MsgModel::Fail(m)],
    }
}

/// Produces the messages of a stream with the given content. A plain stream
/// never fails; a compressed one does where the codec does.
pub fn produce(content: &[u8], opts: &StreamOpts) -> (r: Vec<Msg>)
    requires
        opts.chunk_bytes > 0,
    ensures
        produced(content@, *opts, msg_models(r@)),
{
    let encoded = encode_content(content, opts);
    produce_encoded(encoded, opts.chunk_bytes)
}

// ---- session ----

/// The text of the failure of a producer that vanished.
pub open spec fn vanished() -> Seq<char> {
    "svs producer ended without completing"@
}

/// The `i`-th message of a producer: one that vanished counts as failed.
/// `None`: it is not there yet.
pub open spec fn message_at(feed: Seq<MsgModel>, closed: bool, i: int) -> Option<MsgModel> {
    if 0 <= i < feed.len() {
        Some(feed[i])
    } else if closed {
        Some(MsgModel::Fail(vanished()))
    } else {
        None
    }
}

/// What a pull gives: the next chunk and whether it is the last, or the failure
/// of the producer. A chunk is only handed out once it is known what follows
/// it. `None`: the producer has not got so far.
pub open spec fn pull_answer(feed: Seq<MsgModel>, closed: bool) -> Option<
    Result<(Seq<u8>, bool), Seq<char>>,
> {
    match message_at(feed, closed, 0) {
        None => None,
        Some(MsgModel::End) => Some(Ok((Seq::empty(), true))),
        Some(MsgModel::Fail(m)) => Some(Err(m)),
        Some(MsgModel::Chunk(c)) => match message_at(feed, closed, 1) {
            None => None,
            Some(MsgModel::Chunk(_)) => Some(Ok((c, false))),
            Some(MsgModel::End) => Some(Ok((c, true))),
            Some(MsgModel::Fail(m)) => Some(Err(m)),
        },
    }
}

/// The messages that are left after a pull.
pub open spec fn pull_rest(feed: Seq<MsgModel>, closed: bool) -> Seq<MsgModel> {
    match pull_answer(feed, closed) {
        None => feed,
        Some(Ok((_, false))) => feed.subrange(1, feed.len() as int),
        Some(_) => if feed.len() >= 2 && feed[0] is Chunk {
            feed.subrange(2, feed.len() as int)
        } else if feed.len() >= 1 {
            feed.subrange(1, feed.len() as int)
        } else {
            feed
        },
    }
}

/// The consumer's end of a production: messages that have arrived, and one
/// chunk that is held back until its successor is known.
pub struct Session {
    inbox: VecDeque<Msg>,
    closed: bool,
    lookahead: Option<Vec<u8>>,
    done: bool,
}

/// What a [`Session`] holds.
pub struct SessionModel {
    pub feed: Seq<MsgModel>,
    pub closed: bool,
    pub done: bool,
}

impl View for Session {
    type V = SessionModel;

    closed spec fn view(&self) -> SessionModel {
        SessionModel {
            feed: match self.lookahead {
                Some(c) => seq![MsgModel::Chunk(c@)] + msg_models(self.inbox@),
                None => msg_models(self.inbox@),
            },
            closed: self.closed,
            done: self.done,
        }
    }
}

/// The outcome of a pull, with bytes and text as sequences.
pub open spec fn pulled(r: Option<Result<(Vec<u8>, bool), String>>) -> Option<
    Result<(Seq<u8>, bool), Seq<char>>,
> {
    match r {
        None => None,
        Some(Ok((c, last))) => Some(Ok((c@, last))),
        Some(Err(m)) => Some(Err(m@)),
    }
}

impl Session {
    /// A session whose producer has not sent anything.
    pub fn new() -> (s: Session)
        ensures
            s@.feed == Seq::<MsgModel>::empty(),
            !s@.closed,
            !s@.done,
    {
        let s = Session { inbox: VecDeque::new(), closed: false, lookahead: None, done: false };
        assert(msg_models(s.inbox@) =~= Seq::<MsgModel>::empty());
        s
    }

    /// A message of the producer arrives.
    pub fn deliver(&mut self, msg: Msg)
        ensures
            final(self)@ == (SessionModel { feed: old(self)@.feed.push(msg@), ..old(self)@ }),
    {
        let ghost had = self.inbox@;
        self.inbox.push_back(msg);
        assert(msg_models(self.inbox@) =~= msg_models(had).push(msg@));
        assert(self@.feed =~= old(self)@.feed.push(msg@));
    }

    /// The producer is gone: nothing more will arrive.
    pub fn close(&mut self)
        ensures
            final(self)@ == (SessionModel { closed: true, ..old(self)@ }),
    {
        self.closed = true;
    }

    /// The next message. A producer that is gone counts as failed: it announces
    /// its end before it leaves.
    fn recv(&mut self) -> (r: Option<Msg>)
        ensures
            final(self).closed == old(self).closed,
            final(self).done == old(self).done,
            final(self).lookahead == old(self).lookahead,
            match r {
                None => message_at(msg_models(old(self).inbox@), old(self).closed, 0) is None
                    && final(self).inbox@ == old(self).inbox@,
                Some(m) => message_at(msg_models(old(self).inbox@), old(self).closed, 0) == Some(m@)
                    && final(self).inbox@ == if old(self).inbox@.len() > 0 {
                    old(self).inbox@.subrange(1, old(self).inbox@.len() as int)
                } else {
                    old(self).inbox@
                },
            },
    {
        match self.inbox.pop_front() {
            Some(m) => Some(m),
            None => if self.closed {
                Some(Msg::Fail("svs producer ended without completing".to_owned()))
            } else {
                None
            },
        }
    }

    /// The next chunk and whether it is the last, or the failure of the
    /// producer. `None`: wait for the producer.
    pub fn pull(&mut self) -> (r: Option<Result<(Vec<u8>, bool), String>>)
        ensures
            pulled(r) == pull_answer(old(self)@.feed, old(self)@.closed),
            final(self)@ == (SessionModel {
                feed: pull_rest(old(self)@.feed, old(self)@.closed),
                ..old(self)@
            }),
    {
        let ghost feed = self@.feed;
        let ghost inbox = msg_models(self.inbox@);
        let current: Vec<u8> = match self.lookahead.take() {
            Some(c) => c,
            None => match self.recv() {
                None => {
                    return None;
                },
                Some(Msg::Chunk(c)) => c,
                Some(Msg::End) => {
                    proof {
                        assert(msg_models(self.inbox@) =~= pull_rest(feed, self.closed));
                    }
                    return Some(Ok((Vec::new(), true)));
                },
                Some(Msg::Fail(m)) => {
                    proof {
                        assert(msg_models(self.inbox@) =~= pull_rest(feed, self.closed));
                    }
                    return Some(Err(m));
                },
            },
        };
        let ghost rest = msg_models(self.inbox@);
        assert(feed =~= seq![MsgModel::Chunk(current@)] + rest);
        match self.recv() {
            None => {
                self.lookahead = Some(current);
                assert(self@.feed =~= feed);
                None
            },
            Some(Msg::Chunk(next)) => {
                self.lookahead = Some(next);
                assert(self@.feed =~= feed.subrange(1, feed.len() as int));
                Some(Ok((current, false)))
            },
            Some(Msg::End) => {
                assert(self@.feed =~= pull_rest(feed, self.closed));
                Some(Ok((current, true)))
            },
            Some(Msg::Fail(m)) => {
                assert(self@.feed =~= pull_rest(feed, self.closed));
                Some(Err(m))
            },
        }
    }

    /// What a request for the next chunk gives. A stream that has handed out
    /// its last chunk, or has failed, is finished. `None`: wait for the
    /// producer.
    pub fn next_chunk(&mut self) -> (r: Option<Result<(Vec<u8>, bool), String>>)
        ensures
            pulled(r) == old(self)@.next_answer(),
            final(self)@ == old(self)@.after_next(),
    {
        if self.done {
            return Some(Err("svs next: stream already finished".to_owned()));
        }
        let r = self.pull();
        let ends: bool = match &r {
            Some(Ok((_, last))) => *last,
            Some(Err(_)) => true,
            None => false,
        };
        if ends {
            self.done = true;
        }
        r
    }
}

impl SessionModel {
    /// What a request for the next chunk gives.
    pub open spec fn next_answer(self) -> Option<Result<(Seq<u8>, bool), Seq<char>>> {
        if self.done {
            Some(Err("svs next: stream already finished"@))
        } else {
            pull_answer(self.feed, self.closed)
        }
    }

    /// The session after a request for the next chunk.
    pub open spec fn after_next(self) -> SessionModel {
        if self.done {
            self
        } else {
            SessionModel {
                feed: pull_rest(self.feed, self.closed),
                done: ends_stream(self.next_answer()),
                ..self
            }
        }
    }
}

/// Whether an answer is the final one of its stream.
pub open spec fn ends_stream(answer: Option<Result<(Seq<u8>, bool), Seq<char>>>) -> bool {
    match answer {
        Some(Ok((_, last))) => last,
        Some(Err(_)) => true,
        None => false,
    }
}

/// Whether a stream is live after a request for its next chunk.
pub open spec fn stays_live(session: SessionModel) -> bool {
    !session.after_next().done
}

// ---- what a consumer receives ----

/// The bytes that a consumer has once it was handed the last chunk, if it ever
/// is.
pub open spec fn received(feed: Seq<MsgModel>, closed: bool) -> Option<Seq<u8>>
    decreases feed.len(),
{
    match pull_answer(feed, closed) {
        Some(Ok((c, true))) => Some(c),
        Some(Ok((c, false))) => match received(pull_rest(feed, closed), closed) {
            Some(rest) => Some(c + rest),
            None => None,
        },
        _ => None,
    }
}

/// What is pulled is what was sent: from the chunks of a stream and its end, a
/// consumer gets the chunks in order, put together.
pub proof fn pulling_gives_back_the_chunks(chunks: Seq<Seq<u8>>, closed: bool)
    ensures
        received(chunk_msgs(chunks).push(MsgModel::End), closed) == Some(concat(chunks)),
    decreases chunks.len(),
{
    let feed = chunk_msgs(chunks).push(MsgModel::End);
    if chunks.len() == 0 {
        assert(feed[0] == MsgModel::End);
    } else if chunks.len() == 1 {
        assert(feed[0] == MsgModel::Chunk(chunks[0]));
        assert(feed[1] == MsgModel::End);
        assert(chunks.drop_first() =~= Seq::<Seq<u8>>::empty());
        assert(concat(chunks.drop_first()) == Seq::<u8>::empty());
        assert(chunks[0] + Seq::<u8>::empty() =~= chunks[0]);
    } else {
        assert(feed[0] == MsgModel::Chunk(chunks[0]));
        assert(feed[1] == MsgModel::Chunk(chunks[1]));
        let rest = chunks.drop_first();
        pulling_gives_back_the_chunks(rest, closed);
        assert(pull_rest(feed, closed) =~= chunk_msgs(rest).push(MsgModel::End));
    }
}

/// Only the final chunk is flagged as the last: as long as another chunk
/// follows, a pull gives the chunk without the flag and leaves the rest; with
/// the end behind it, it gives the chunk with the flag.
pub proof fn only_the_final_chunk_is_last(chunks: Seq<Seq<u8>>, closed: bool)
    requires
        chunks.len() > 0,
    ensures
        pull_answer(chunk_msgs(chunks).push(MsgModel::End), closed) == Some(
            Ok::<(Seq<u8>, bool), Seq<char>>((chunks[0], chunks.len() == 1)),
        ),
        chunks.len() > 1 ==> pull_rest(chunk_msgs(chunks).push(MsgModel::End), closed)
            == chunk_msgs(chunks.drop_first()).push(MsgModel::End),
{
    let feed = chunk_msgs(chunks).push(MsgModel::End);
    assert(feed[0] == MsgModel::Chunk(chunks[0]));
    if chunks.len() > 1 {
        assert(feed[1] == MsgModel::Chunk(chunks[1]));
        assert(pull_rest(feed, closed) =~= chunk_msgs(chunks.drop_first()).push(MsgModel::End));
    } else {
        assert(feed[1] == MsgModel::End);
    }
}

/// A production that broke off is never taken for a complete one: without the
/// end behind its chunks, whether the producer announced a failure or vanished,
/// a consumer is never handed a last chunk.
pub proof fn a_broken_production_never_completes(
    chunks: Seq<Seq<u8>>,
    rest: Seq<MsgModel>,
    closed: bool,
)
    requires
        rest.len() > 0 ==> rest[0] is Fail,
    ensures
        received(chunk_msgs(chunks) + rest, closed) is None,
    decreases chunks.len(),
{
    let feed = chunk_msgs(chunks) + rest;
    if chunks.len() > 0 {
        assert(feed[0] == MsgModel::Chunk(chunks[0]));
        if chunks.len() > 1 {
            assert(feed[1] == MsgModel::Chunk(chunks[1]));
            a_broken_production_never_completes(chunks.drop_first(), rest, closed);
            assert(pull_rest(feed, closed) =~= chunk_msgs(chunks.drop_first()) + rest);
        } else {
            if rest.len() > 0 {
                assert(feed[1] == rest[0]);
            }
        }
    } else {
        if rest.len() > 0 {
            assert(feed[0] == rest[0]);
        }
    }
}

/// What a consumer makes of a stream is what was produced: it gets the encoded
/// content back, and that stands for the content. Where the codec failed, and
/// only there, it gets nothing.
pub proof fn a_stream_carries_its_content(
    content: Seq<u8>,
    opts: StreamOpts,
    msgs: Seq<MsgModel>,
    closed: bool,
)
    requires
        opts.chunk_bytes > 0,
        produced(content, opts, msgs),
    ensures
        match encoded_content(content, opts) {
            Ok(_) => received(msgs, closed) matches Some(bytes) && decoded(bytes, opts.compression)
                == Ok::<Seq<u8>, ErrorModel>(content),
            Err(_) => received(msgs, closed) is None,
        },
        opts.compression == Compression::Plain ==> received(msgs, closed) == Some(content),
{
    match encoded_content(content, opts) {
        Ok(encoded) => {
            let n = opts.chunk_bytes as nat;
            cutting_loses_nothing(encoded, n);
            pulling_gives_back_the_chunks(chunks_of(encoded, n), closed);
        },
        Err(m) => {
            assert(msgs[0] == MsgModel::Fail(m));
        },
    }
}

// ---- sessions of a server ----

/// A request to open a stream.
#[derive(Debug, Clone)]
pub struct OpenRequest {
    pub resource: String,
}

/// The answer to a request to open a stream.
#[derive(Debug, Clone, Copy, PartialEq, Eq, Structural)]
pub struct OpenResponse {
    pub version: u8,
    pub stream_id: u64,
    /// Format of the content, as a body format.
    pub format: u16,
    /// Tag of the codec.
    pub compression: u8,
}

/// A request for the next chunk of a stream.
#[derive(Debug, Clone, Copy, PartialEq, Eq, Structural)]
pub struct NextRequest {
    pub stream_id: u64,
}

/// A request to release a stream.
#[derive(Debug, Clone)]
pub struct CancelRequest {
    pub stream_id: u64,
    pub reason: String,
}

/// The error reply to a stream request: it carries the id and nothing else of
/// the request.
pub open spec fn svs_error(req: Header, code: ErrorCode, text: Seq<char>) -> MessageModel {
    message::error_reply(Header { id: req.id, ..Header::blank() }, code, text)
}

/// The error reply to a stream request.
pub fn error_like(req: &Message, code: ErrorCode, text: &str) -> (m: Message)
    ensures
        m@ == svs_error(req.header, code, text@),
{
    let mut m = create_error_message(code, text);
    m.header.id = req.header.id;
    m
}

/// The reply that carries a serialized value.
pub fn beve_response(req: &Message, body: Vec<u8>) -> (m: Message)
    ensures
        m@ == message::body_reply(
            (Header { id: req.header.id, ..Header::blank() }),
            body@,
            BodyFormat::Beve,
        ),
{
    Message::builder().id(req.header.id).body_bytes(body).body_format(BodyFormat::Beve).build()
}

/// The reply that carries a chunk: its body is the chunk, and its query is one
/// byte that flags the last.
pub open spec fn chunk_reply(req: Header, chunk: Seq<u8>, last: bool) -> MessageModel {
    (MessageModel {
        header: Header {
            id: req.id,
            query_format: QueryFormat::RawBinary.wire(),
            body_format: BodyFormat::RawBinary.wire(),
            ..Header::blank()
        },
        query: seq![
            if last {
                1u8
            } else {
                0u8
            },
        ],
        body: chunk,
    }).stamped()
}

/// The reply that carries a chunk.
pub fn chunk_response(req: &Message, chunk: Vec<u8>, last: bool) -> (m: Message)
    ensures
        m@ == chunk_reply(req.header, chunk@, last),
{
    let mut flag: Vec<u8> = Vec::new();
    flag.push(
        if last {
            1u8
        } else {
            0u8
        },
    );
    assert(flag@ =~= seq![
        if last {
            1u8
        } else {
            0u8
        },
    ]);
    Message::builder().id(req.header.id).query_format(QueryFormat::RawBinary).query_bytes(
        flag,
    ).body_format(BodyFormat::RawBinary).body_bytes(chunk).build()
}

/// The reply to a request for the next chunk, given what the session answered.
pub open spec fn next_reply_model(
    req: Header,
    answer: Result<(Seq<u8>, bool), Seq<char>>,
) -> MessageModel {
    match answer {
        Ok((chunk, last)) => chunk_reply(req, chunk, last),
        Err(m) => svs_error(req, ErrorCode::InternalError, m),
    }
}

/// The reply to a request for the next chunk, given what the session answered,
/// and whether the stream is to be released.
pub fn next_reply(req: &Message, answer: Result<(Vec<u8>, bool), String>) -> (r: (Message, bool))
    ensures
        match answer {
            Ok((chunk, last)) => r.0@ == chunk_reply(req.header, chunk@, last) && r.1 == last,
            Err(m) => r.0@ == svs_error(req.header, ErrorCode::InternalError, m@) && r.1,
        },
{
    match answer {
        Ok((chunk, last)) => (chunk_response(req, chunk, last), last),
        Err(m) => (error_like(req, ErrorCode::InternalError, m.as_str()), true),
    }
}

/// The resource that a request to open a stream names.
pub open spec fn resource_of(open: Option<&OpenRequest>) -> Option<Seq<char>> {
    match open {
        Some(o) => Some(o.resource@),
        None => None,
    }
}

/// What a request to open a stream came to.
pub open spec fn opened_outcome(r: Result<OpenResponse, Message>) -> Result<
    OpenResponse,
    MessageModel,
> {
    match r {
        Ok(response) => Ok(response),
        Err(m) => Err(m@),
    }
}

/// The stream that a request for the next chunk names.
pub open spec fn stream_of(next: Option<NextRequest>) -> Option<u64> {
    match next {
        Some(n) => Some(n.stream_id),
        None => None,
    }
}

/// The stream that a request was found to be about.
pub open spec fn target_outcome(r: Result<u64, Message>) -> Result<u64, MessageModel> {
    match r {
        Ok(id) => Ok(id),
        Err(m) => Err(m@),
    }
}

/// The live streams of a server. `S` is the handle of a session.
pub struct SessionTable<S> {
    next_id: u64,
    sessions: HashMap<u64, S>,
}

/// What a [`SessionTable`] holds.
#[verifier::ext_equal]
pub struct TableModel<S> {
    pub next_id: u64,
    pub sessions: Map<u64, S>,
}

impl<S> TableModel<S> {
    /// Every live stream has an id that was given out before.
    pub open spec fn wf(self) -> bool {
        forall|id: u64| #[trigger] self.sessions.contains_key(id) ==> id < self.next_id
    }

    /// The id behind `id`; ids start over when they run out.
    pub open spec fn following(id: u64) -> u64 {
        if id == u64::MAX {
            0
        } else {
            (id + 1) as u64
        }
    }

    /// What a request to open a stream is answered: `resource` is what it names, if
    /// it could be read, and `there` whether there is such a resource.
    pub open spec fn open_answer(
        self,
        req: Header,
        resource: Option<Seq<char>>,
        there: bool,
        opts: StreamOpts,
        format: u16,
    ) -> Result<OpenResponse, MessageModel> {
        match resource {
            None => Err(
                svs_error(
                    req,
                    ErrorCode::InvalidBody,
                    "svs open: expected BEVE { resource: string }"@,
                ),
            ),
            Some(name) => if there {
                Ok(
                    OpenResponse {
                        version: SVS_VERSION,
                        stream_id: self.next_id,
                        format,
                        compression: opts.compression.wire(),
                    },
                )
            } else {
                Err(
                    svs_error(
                        req,
                        ErrorCode::MethodNotFound,
                        "svs open: unknown resource '"@ + name + "'"@,
                    ),
                )
            },
        }
    }

    /// The table after that request.
    pub open spec fn after_open(self, resource: Option<Seq<char>>, session: Option<S>) -> TableModel<
        S,
    > {
        match session {
            Some(s) => if resource is Some {
                self.enrolled(s)
            } else {
                self
            },
            None => self,
        }
    }

    /// The table after a request to release a stream, if it could be read.
    pub open spec fn after_cancel(self, stream_id: Option<u64>) -> TableModel<S> {
        match stream_id {
            Some(id) => TableModel { sessions: self.sessions.remove(id), ..self },
            None => self,
        }
    }

    /// The live stream that a request for the next chunk is about, or the reply to
    /// a request that names none.
    pub open spec fn next_target(self, req: Header, stream_id: Option<u64>) -> Result<
        u64,
        MessageModel,
    > {
        match stream_id {
            None => Err(
                svs_error(
                    req,
                    ErrorCode::InvalidBody,
                    "svs next: expected BEVE { stream_id: u64 }"@,
                ),
            ),
            Some(id) => if self.sessions.contains_key(id) {
                Ok(id)
            } else {
                Err(
                    svs_error(
                        req,
                        ErrorCode::InvalidQuery,
                        "svs next: unknown stream_id "@ + text::decimal(id as nat),
                    ),
                )
            },
        }
    }

    /// The table with one more stream, under the next id.
    pub open spec fn enrolled(self, session: S) -> TableModel<S> {
        TableModel {
            next_id: TableModel::<S>::following(self.next_id),
            sessions: self.sessions.insert(self.next_id, session),
        }
    }
}

impl<S> View for SessionTable<S> {
    type V = TableModel<S>;

    closed spec fn view(&self) -> TableModel<S> {
        TableModel { next_id: self.next_id, sessions: self.sessions@ }
    }
}

/// As long as ids do not run out, a new stream gets an id that no live stream
/// has, and displaces none.
pub proof fn a_new_stream_displaces_none<S>(t: TableModel<S>, session: S)
    requires
        t.wf(),
        t.next_id < u64::MAX,
    ensures
        !t.sessions.contains_key(t.next_id),
        t.enrolled(session).wf(),
        forall|id: u64| #[trigger]
            t.sessions.contains_key(id) ==> t.enrolled(session).sessions.contains_key(id)
                && t.enrolled(session).sessions[id] == t.sessions[id],
{
}

impl<S> SessionTable<S> {
    /// An empty table; ids start at 1.
    pub fn new() -> (t: SessionTable<S>)
        ensures
            t@.wf(),
            t@ == (TableModel { next_id: 1, sessions: Map::<u64, S>::empty() }),
    {
        SessionTable { next_id: 1, sessions: HashMap::new() }
    }

    pub fn get(&self, stream_id: u64) -> (r: Option<&S>)
        ensures
            r is Some == self@.sessions.contains_key(stream_id),
            r matches Some(s) ==> *s == self@.sessions[stream_id],
    {
        self.sessions.get(&stream_id)
    }

    /// Releases a stream.
    pub fn remove(&mut self, stream_id: u64) -> (r: Option<S>)
        ensures
            final(self)@ == (TableModel {
                sessions: old(self)@.sessions.remove(stream_id),
                ..old(self)@
            }),
            r == if old(self)@.sessions.contains_key(stream_id) {
                Some(old(self)@.sessions[stream_id])
            } else {
                None
            },
    {
        let r = self.sessions.remove(&stream_id);
        assert(self.sessions@ =~= old(self)@.sessions.remove(stream_id));
        r
    }

    /// Takes in a stream and gives it an id.
    pub fn enroll(&mut self, session: S) -> (id: u64)
        ensures
            id == old(self)@.next_id,
            final(self)@ == old(self)@.enrolled(session),
    {
        let id: u64 = self.next_id;
        self.next_id = if id == u64::MAX {
            0
        } else {
            id + 1
        };
        self.sessions.insert(id, session);
        id
    }

    /// Serves a request to open a stream. `open` is the request as far as it
    /// could be read, `session` the production of the resource if there is such
    /// a resource.
    pub fn handle_open(
        &mut self,
        req: &Message,
        open: Option<&OpenRequest>,
        session: Option<S>,
        opts: &StreamOpts,
        format: u16,
    ) -> (r: Result<OpenResponse, Message>)
        ensures
            match (open, session) {
                (None, _) => r matches Err(m) && m@ == svs_error(
                    req.header,
                    ErrorCode::InvalidBody,
                    "svs open: expected BEVE { resource: string }"@,
                ) && final(self)@ == old(self)@,
                (Some(o), None) => r matches Err(m) && m@ == svs_error(
                    req.header,
                    ErrorCode::MethodNotFound,
                    "svs open: unknown resource '"@ + o.resource@ + "'"@,
                ) && final(self)@ == old(self)@,
                (Some(_), Some(s)) => r == Ok::<OpenResponse, Message>(
                    OpenResponse {
                        version: SVS_VERSION,
                        stream_id: old(self)@.next_id,
                        format,
                        compression: opts.compression.wire(),
                    },
                ) && final(self)@ == old(self)@.enrolled(s),
            },
            opened_outcome(r) == old(self)@.open_answer(
                req.header,
                resource_of(open),
                session is Some,
                *opts,
                format,
            ),
            final(self)@ == old(self)@.after_open(resource_of(open), session),
    {
        let open = match open {
            Some(o) => o,
            None => {
                return Err(
                    error_like(
                        req,
                        ErrorCode::InvalidBody,
                        "svs open: expected BEVE { resource: string }",
                    ),
                );
            },
        };
        match session {
            None => {
                let text = concat3("svs open: unknown resource '", open.resource.as_str(), "'");
                Err(error_like(req, ErrorCode::MethodNotFound, text.as_str()))
            },
            Some(s) => {
                let stream_id: u64 = self.enroll(s);
                Ok(
                    OpenResponse {
                        version: SVS_VERSION,
                        stream_id,
                        format,
                        compression: opts.compression.code(),
                    },
                )
            },
        }
    }

    /// The stream that a request for the next chunk is about, or the reply to a
    /// request that could not be read or names no live stream.
    pub fn find_next(&self, req: &Message, next: Option<NextRequest>) -> (r: Result<u64, Message>)
        ensures
            match next {
                None => r matches Err(m) && m@ == svs_error(
                    req.header,
                    ErrorCode::InvalidBody,
                    "svs next: expected BEVE { stream_id: u64 }"@,
                ),
                Some(n) => if self@.sessions.contains_key(n.stream_id) {
                    r == Ok::<u64, Message>(n.stream_id)
                } else {
                    r matches Err(m) && m@ == svs_error(
                        req.header,
                        ErrorCode::InvalidQuery,
                        "svs next: unknown stream_id "@ + text::decimal(n.stream_id as nat),
                    )
                },
            },
            target_outcome(r) == self@.next_target(req.header, stream_of(next)),
    {
        match next {
            None => Err(
                error_like(
                    req,
                    ErrorCode::InvalidBody,
                    "svs next: expected BEVE { stream_id: u64 }",
                ),
            ),
            Some(n) => if self.sessions.contains_key(&n.stream_id) {
                Ok(n.stream_id)
            } else {
                let text = concat2(
                    "svs next: unknown stream_id ",
                    u64_text(n.stream_id).as_str(),
                );
                Err(error_like(req, ErrorCode::InvalidQuery, text.as_str()))
            },
        }
    }

    /// Serves a request to release a stream. One that could not be read
    /// releases nothing, and is acknowledged all the same.
    pub fn handle_cancel(&mut self, cancel: Option<&CancelRequest>) -> (ok: bool)
        ensures
            ok,
            final(self)@ == match cancel {
                Some(c) => TableModel {
                    sessions: old(self)@.sessions.remove(c.stream_id),
                    ..old(self)@
                },
                None => old(self)@,
            },
            final(self)@ == old(self)@.after_cancel(
                match cancel {
                    Some(c) => Some(c.stream_id),
                    None => None,
                },
            ),
    {
        if let Some(c) = cancel {
            self.remove(c.stream_id);
        }
        true
    }
}

impl SessionTable<Session> {
    /// Serves a request for the next chunk. `None`: wait for the producer. The
    /// last chunk and a failure release the stream.
    pub fn handle_next(&mut self, req: &Message, next: Option<NextRequest>) -> (r: Option<Message>)
        ensures
            final(self)@.next_id == old(self)@.next_id,
            match next {
                None => r matches Some(m) && m@ == svs_error(
                    req.header,
                    ErrorCode::InvalidBody,
                    "svs next: expected BEVE { stream_id: u64 }"@,
                ) && final(self)@ == old(self)@,
                Some(n) => if !old(self)@.sessions.contains_key(n.stream_id) {
                    r matches Some(m) && m@ == svs_error(
                        req.header,
                        ErrorCode::InvalidQuery,
                        "svs next: unknown stream_id "@ + text::decimal(n.stream_id as nat),
                    ) && final(self)@ == old(self)@
                } else {
                    let session = old(self)@.sessions[n.stream_id]@;
                    &&& match session.next_answer() {
                        None => r is None,
                        Some(a) => r matches Some(m) && m@ == next_reply_model(req.header, a),
                    }
                    &&& final(self)@.sessions.remove(n.stream_id) == old(self)@.sessions.remove(
                        n.stream_id,
                    )
                    &&& final(self)@.sessions.contains_key(n.stream_id) == !ends_stream(
                        session.next_answer(),
                    )
                    &&& final(self)@.sessions.contains_key(n.stream_id) == stays_live(session)
                    &&& !ends_stream(session.next_answer()) ==> final(
                        self)@.sessions[n.stream_id]@ == session.after_next()
                },
            },
    {
        let stream_id: u64 = match self.find_next(req, next) {
            Ok(id) => id,
            Err(m) => return Some(m),
        };
        let ghost before = self@.sessions;
        let mut session: Session = match self.remove(stream_id) {
            Some(s) => s,
            None => {
                return None;
            },
        };
        match session.next_chunk() {
            None => {
                self.sessions.insert(stream_id, session);
                assert(self@.sessions.remove(stream_id) =~= before.remove(stream_id));
                None
            },
            Some(answer) => {
                let (reply, release) = next_reply(req, answer);
                if !release {
                    self.sessions.insert(stream_id, session);
                }
                assert(self@.sessions.remove(stream_id) =~= before.remove(stream_id));
                Some(reply)
            },
        }
    }
}

// ---- consumer ----

/// What a consumer does with a stream.
#[derive(Debug, Clone, Copy)]
pub enum StreamOutput<'a> {
    /// Write the chunks to a file as they are. The stream has to be compressed.
    BeveZstdFile(&'a str),
    /// Decompress the chunks into a file. The stream has to be compressed BEVE.
    BeveFile(&'a str),
    /// Decode the value. The stream has to be BEVE.
    Value,
    /// Write the content to a file, whatever its format.
    RawFile(&'a str),
}

/// What a consumer knows of a stream that it opened.
#[derive(Debug, Clone, Copy, PartialEq, Eq, Structural)]
pub struct OpenInfo {
    pub stream_id: u64,
    pub format: u16,
    pub compression: Compression,
}

/// An error about the data of a stream.
pub open spec fn invalid_data(text: Seq<char>) -> ErrorModel {
    ErrorModel::Io { kind: IoKind::InvalidData, message: text }
}

/// What a consumer makes of the answer to its request to open a stream.
pub open spec fn open_info(open: OpenResponse) -> Result<OpenInfo, ErrorModel> {
    if open.version != SVS_VERSION {
        Err(
            invalid_data(
                "svs open: server contract version "@ + text::decimal(open.version as nat)
                    + " != supported "@ + text::decimal(SVS_VERSION as nat),
            ),
        )
    } else {
        match Compression::of_wire(open.compression) {
            Some(compression) => Ok(
                OpenInfo { stream_id: open.stream_id, format: open.format, compression },
            ),
            None => Err(
                invalid_data(
                    "svs open: unknown compression tag "@ + text::decimal(
                        open.compression as nat,
                    ),
                ),
            ),
        }
    }
}

/// Checks the answer to a request to open a stream.
pub fn parse_open_response(open: &OpenResponse) -> (r: Result<OpenInfo, RepeError>)
    ensures
        match open_info(*open) {
            Ok(info) => r == Ok::<OpenInfo, RepeError>(info),
            Err(m) => r matches Err(e) && e@ == m,
        },
{
    if open.version != SVS_VERSION {
        let mut m = concat3(
            "svs open: server contract version ",
            u64_text(open.version as u64).as_str(),
            " != supported ",
        );
        m.append(u64_text(SVS_VERSION as u64).as_str());
        return Err(RepeError::io(IoKind::InvalidData, m.as_str()));
    }
    match Compression::from_u8(open.compression) {
        Some(compression) => Ok(
            OpenInfo { stream_id: open.stream_id, format: open.format, compression },
        ),
        None => {
            let m = concat2(
                "svs open: unknown compression tag ",
                u64_text(open.compression as u64).as_str(),
            );
            Err(RepeError::io(IoKind::InvalidData, m.as_str()))
        },
    }
}

/// A consumer understands what a server answers: it learns the stream, the
/// format and the codec that the server meant.
pub proof fn an_opened_stream_is_understood(stream_id: u64, format: u16, compression: Compression)
    ensures
        open_info(
            OpenResponse {
                version: SVS_VERSION,
                stream_id,
                format,
                compression: compression.wire(),
            },
        ) == Ok::<OpenInfo, ErrorModel>(OpenInfo { stream_id, format, compression }),
{
}

/// What is wrong with the format of a stream for a reader of numeric arrays.
pub fn require_beve(open: &OpenInfo) -> (r: Result<(), RepeError>)
    ensures
        r is Ok == (open.format == BodyFormat::Beve.wire()),
        r matches Err(e) ==> e@ == invalid_data(
            "svs: bulk slice decode needs format=BEVE, got format "@ + text::decimal(
                open.format as nat,
            ),
        ),
{
    if open.format != BodyFormat::Beve.code() {
        let m = concat2(
            "svs: bulk slice decode needs format=BEVE, got format ",
            u64_text(open.format as u64).as_str(),
        );
        return Err(RepeError::io(IoKind::InvalidData, m.as_str()));
    }
    Ok(())
}

/// Why a stream cannot be put to the chosen use, if it cannot.
pub open spec fn output_fault(out: StreamOutput, open: OpenInfo) -> Option<Seq<char>> {
    let zstd = open.compression == Compression::Zstd;
    let beve = open.format == BodyFormat::Beve.wire();
    match out {
        StreamOutput::BeveZstdFile(_) => if zstd {
            None
        } else {
            Some("svs: .beve.zst output needs a zstd-compressed stream"@)
        },
        StreamOutput::BeveFile(_) => if !zstd {
            Some("svs: .beve output needs a zstd-compressed stream"@)
        } else if !beve {
            Some(
                "svs: .beve output needs format=BEVE, got format "@ + text::decimal(
                    open.format as nat,
                ),
            )
        } else {
            None
        },
        StreamOutput::Value => if beve {
            None
        } else {
            Some(
                "svs: value decode needs format=BEVE, got format "@ + text::decimal(
                    open.format as nat,
                ),
            )
        },
        StreamOutput::RawFile(_) => None,
    }
}

/// Checks that a stream can be put to the chosen use.
pub fn check_output(out: StreamOutput<'_>, open: &OpenInfo) -> (r: Result<(), RepeError>)
    ensures
        match output_fault(out, *open) {
            None => r is Ok,
            Some(m) => r matches Err(e) && e@ == invalid_data(m),
        },
{
    let beve: u16 = BodyFormat::Beve.code();
    match out {
        StreamOutput::BeveZstdFile(_) => {
            if open.compression != Compression::Zstd {
                return Err(
                    RepeError::io(
                        IoKind::InvalidData,
                        "svs: .beve.zst output needs a zstd-compressed stream",
                    ),
                );
            }
        },
        StreamOutput::BeveFile(_) => {
            if open.compression != Compression::Zstd {
                return Err(
                    RepeError::io(
                        IoKind::InvalidData,
                        "svs: .beve output needs a zstd-compressed stream",
                    ),
                );
            }
            if open.format != beve {
                let m = concat2(
                    "svs: .beve output needs format=BEVE, got format ",
                    u64_text(open.format as u64).as_str(),
                );
                return Err(RepeError::io(IoKind::InvalidData, m.as_str()));
            }
        },
        StreamOutput::Value => {
            if open.format != beve {
                let m = concat2(
                    "svs: value decode needs format=BEVE, got format ",
                    u64_text(open.format as u64).as_str(),
                );
                return Err(RepeError::io(IoKind::InvalidData, m.as_str()));
            }
        },
        StreamOutput::RawFile(_) => {},
    }
    Ok(())
}

/// What has to be done with the bytes of a stream.
#[derive(Debug, Clone, Copy, PartialEq, Eq, Structural)]
pub enum PullPlan {
    /// Write them as they are.
    Copy,
    /// Decompress them and write the content.
    Decompress,
    /// Decode the value from them, decompressed first where it says so.
    Decode { decompress: bool },
}

/// What has to be done with the bytes of a stream for the chosen use.
pub open spec fn plan_for(out: StreamOutput, open: OpenInfo) -> PullPlan {
    let zstd = open.compression == Compression::Zstd;
    match out {
        StreamOutput::BeveZstdFile(_) => PullPlan::Copy,
        StreamOutput::BeveFile(_) => PullPlan::Decompress,
        StreamOutput::Value => PullPlan::Decode { decompress: zstd },
        StreamOutput::RawFile(_) => if zstd {
            PullPlan::Decompress
        } else {
            PullPlan::Copy
        },
    }
}

/// Decides what to do with a stream, before a byte of it is pulled. On an error
/// the stream has to be cancelled.
pub fn pull_plan(out: StreamOutput<'_>, open: &OpenInfo) -> (r: Result<PullPlan, RepeError>)
    ensures
        match output_fault(out, *open) {
            None => r == Ok::<PullPlan, RepeError>(plan_for(out, *open)),
            Some(m) => r matches Err(e) && e@ == invalid_data(m),
        },
{
    match check_output(out, open) {
        Err(e) => return Err(e),
        Ok(()) => {},
    }
    let zstd: bool = open.compression == Compression::Zstd;
    Ok(
        match out {
            StreamOutput::BeveZstdFile(_) => PullPlan::Copy,
            StreamOutput::BeveFile(_) => PullPlan::Decompress,
            StreamOutput::Value => PullPlan::Decode { decompress: zstd },
            StreamOutput::RawFile(_) => if zstd {
                PullPlan::Decompress
            } else {
                PullPlan::Copy
            },
        },
    )
}

/// A plan never decompresses a plain stream, and never writes a compressed one
/// as content.
pub proof fn plans_fit_their_streams(out: StreamOutput, open: OpenInfo)
    requires
        output_fault(out, open) is None,
    ensures
        plan_for(out, open) == PullPlan::Decompress ==> open.compression == Compression::Zstd,
        plan_for(out, open) == (PullPlan::Decode { decompress: true }) ==> open.compression
            == Compression::Zstd,
        plan_for(out, open) == (PullPlan::Decode { decompress: false }) ==> open.compression
            == Compression::Plain,
        plan_for(out, open) == PullPlan::Copy && out is RawFile ==> open.compression
            == Compression::Plain,
{
}

/// Whether a reply flags its chunk as the last.
pub open spec fn flags_last(reply: MessageModel) -> bool {
    reply.query.len() > 0 && reply.query[0] == 1
}

/// The chunk of a reply and its flag are those that the server put there.
pub proof fn a_chunk_reply_is_understood(req: Header, chunk: Seq<u8>, last: bool)
    ensures
        chunk_reply(req, chunk, last).body == chunk,
        flags_last(chunk_reply(req, chunk, last)) == last,
        chunk_reply(req, chunk, last).header.ec == 0,
{
}

/// Whether a reply flags its chunk as the last.
pub fn is_last_reply(reply: &Message) -> (r: bool)
    ensures
        r == flags_last(reply@),
{
    reply.query.len() > 0 && reply.query[0] == 1
}

/// Reads a stream chunk by chunk.
pub struct ChunkReader {
    stream_id: u64,
    buf: Vec<u8>,
    pos: usize,
    last_seen: bool,
}

/// What a [`ChunkReader`] holds.
#[verifier::ext_equal]
pub struct ReaderModel {
    pub stream_id: u64,
    /// Bytes that have arrived and are not read.
    pub unread: Seq<u8>,
    /// Whether the last chunk has arrived.
    pub last_seen: bool,
}

impl View for ChunkReader {
    type V = ReaderModel;

    closed spec fn view(&self) -> ReaderModel {
        ReaderModel {
            stream_id: self.stream_id,
            unread: self.buf@.subrange(self.pos as int, self.buf@.len() as int),
            last_seen: self.last_seen,
        }
    }
}

impl ReaderModel {
    /// After the reply with the next chunk has come.
    pub open spec fn fed(self, reply: MessageModel) -> ReaderModel {
        ReaderModel {
            unread: reply.body,
            last_seen: self.last_seen || flags_last(reply),
            ..self
        }
    }

    /// What a read of up to `max` bytes gives. `None`: the next chunk is wanted.
    pub open spec fn read_out(self, max: nat) -> Option<Seq<u8>> {
        if self.unread.len() > 0 || self.last_seen {
            Some(
                if max <= self.unread.len() {
                    self.unread.subrange(0, max as int)
                } else {
                    self.unread
                },
            )
        } else {
            None
        }
    }

    /// After that read.
    pub open spec fn after_read(self, max: nat) -> ReaderModel {
        ReaderModel {
            unread: if max <= self.unread.len() {
                self.unread.subrange(max as int, self.unread.len() as int)
            } else {
                Seq::empty()
            },
            ..self
        }
    }
}

/// What a read gave.
pub open spec fn read_bytes(r: Option<Vec<u8>>) -> Option<Seq<u8>> {
    match r {
        Some(out) => Some(out@),
        None => None,
    }
}

impl ChunkReader {
    /// The position is within the buffer.
    pub closed spec fn wf(self) -> bool {
        self.pos <= self.buf@.len()
    }

    pub fn new(stream_id: u64) -> (r: ChunkReader)
        ensures
            r.wf(),
            r@ == (ReaderModel { stream_id, unread: Seq::empty(), last_seen: false }),
    {
        let r = ChunkReader { stream_id, buf: Vec::new(), pos: 0, last_seen: false };
        assert(r@.unread =~= Seq::<u8>::empty());
        r
    }

    pub fn stream_id(&self) -> (id: u64)
        ensures
            id == self@.stream_id,
    {
        self.stream_id
    }

    /// Takes the reply to a request for the next chunk. It is asked for when
    /// everything before it has been read.
    pub fn accept(&mut self, reply: Message)
        requires
            old(self).wf(),
            old(self)@.unread.len() == 0,
        ensures
            final(self).wf(),
            final(self)@ == (ReaderModel {
                unread: reply.body@,
                last_seen: old(self)@.last_seen || flags_last(reply@),
                ..old(self)@
            }),
            final(self)@ == old(self)@.fed(reply@),
    {
        if is_last_reply(&reply) {
            self.last_seen = true;
        }
        self.buf = reply.body;
        self.pos = 0;
        assert(self@.unread =~= reply.body@);
    }

    /// Up to `max` bytes. None at all are the end of the stream, where `max` is
    /// not zero. `None`: ask for the next chunk.
    pub fn read(&mut self, max: usize) -> (r: Option<Vec<u8>>)
        requires
            old(self).wf(),
        ensures
            final(self).wf(),
            final(self)@.stream_id == old(self)@.stream_id,
            final(self)@.last_seen == old(self)@.last_seen,
            match r {
                Some(out) => out@ + final(self)@.unread == old(self)@.unread && out@.len() == if max
                    <= old(self)@.unread.len() {
                    max as nat
                } else {
                    old(self)@.unread.len()
                } && (old(self)@.unread.len() == 0 ==> old(self)@.last_seen),
                None => old(self)@.unread.len() == 0 && !old(self)@.last_seen && final(self)@
                    == old(self)@,
            },
            read_bytes(r) == old(self)@.read_out(max as nat),
            final(self)@ == old(self)@.after_read(max as nat),
    {
        let end: usize = self.buf.len();
        if self.pos < end {
            let left: usize = end - self.pos;
            let n: usize = if max <= left {
                max
            } else {
                left
            };
            let part = vstd::slice::slice_subrange(self.buf.as_slice(), self.pos, self.pos + n);
            let out = message::copy_bytes(part);
            self.pos = self.pos + n;
            assert(out@ + self@.unread =~= old(self)@.unread);
            proof {
                let had = old(self)@.unread;
                assert(had.len() == left);
                assert(out@ =~= had.subrange(0, n as int));
                assert(self@.unread =~= had.subrange(n as int, had.len() as int));
                assert(had.subrange(0, had.len() as int) =~= had);
                assert(had.subrange(had.len() as int, had.len() as int) =~= Seq::<u8>::empty());
            }
            return Some(out);
        }
        assert(self@.unread =~= Seq::<u8>::empty());
        assert(self@.unread.subrange(0, 0) =~= Seq::<u8>::empty());
        if self.last_seen {
            let out: Vec<u8> = Vec::new();
            assert(out@ + self@.unread =~= old(self)@.unread);
            assert(out@ =~= Seq::<u8>::empty());
            return Some(out);
        }
        None
    }

    /// Whether what was read is a complete stream, and not one that broke off.
    pub fn check_complete(&self) -> (r: Result<(), RepeError>)
        ensures
            r is Ok == self@.last_seen,
            r matches Err(e) ==> e@ == (ErrorModel::Io {
                kind: IoKind::UnexpectedEof,
                message: "svs: stream ended without a final chunk"@,
            }),
    {
        if !self.last_seen {
            return Err(
                RepeError::io(
                    IoKind::UnexpectedEof,
                    "svs: stream ended without a final chunk",
                ),
            );
        }
        Ok(())
    }
}

/// What a reply means to a loop that feeds a decoder.
pub open spec fn step_of(reply: MessageModel) -> (Option<Seq<u8>>, bool) {
    (
        if reply.body.len() > 0 {
            Some(reply.body)
        } else {
            None
        },
        flags_last(reply),
    )
}

/// What a reply means to a loop that feeds a decoder: the chunk, unless it is
/// empty, and whether the loop is over.
pub fn pull_step(reply: Message) -> (r: (Option<Vec<u8>>, bool))
    ensures
        r.0 is Some == (reply.body@.len() > 0),
        r.0 matches Some(c) ==> c@ == reply.body@,
        r.1 == flags_last(reply@),
        (read_bytes(r.0), r.1) == step_of(reply@),
{
    let last: bool = is_last_reply(&reply);
    if reply.body.len() > 0 {
        (Some(reply.body), last)
    } else {
        (None, last)
    }
}

/// What a pull comes to: an error of the transfer explains whatever the decoder
/// made of it, so it comes first, and a value made from a short read is dropped.
pub fn settle_pull<V>(transfer: Result<(), RepeError>, decoded_value: Result<V, RepeError>) -> (r:
    Result<V, RepeError>)
    ensures
        r == match transfer {
            Err(e) => Err::<V, RepeError>(e),
            Ok(_) => decoded_value,
        },
{
    match transfer {
        Err(e) => Err(e),
        Ok(()) => decoded_value,
    }
}

/// Name of the file that a download is written to before it is complete.
pub fn temp_name(name: &str) -> (s: String)
    ensures
        s@ == name@ + ".svspart"@,
{
    concat2(name, ".svspart")
}

// ---- how a pull goes ----

/// Why a consumer gives up a stream whose tags do not fit the chosen use.
pub const REASON_INCOMPATIBLE_OUTPUT: &'static str = "output incompatible with stream tags";

/// Why a reader of numeric arrays gives up a stream of another format.
pub const REASON_INCOMPATIBLE_FORMAT: &'static str = "format incompatible with bulk decode";

/// Why a consumer gives up a stream that it could not write.
pub const REASON_ABORTED: &'static str = "receiver aborted";

/// Why a consumer gives up the rest of a stream that it has decoded.
pub const REASON_DECODED: &'static str = "value fully decoded";

/// How a pull begins.
pub enum PullStart {
    /// Cancel the stream for this reason and return the error.
    Refuse { error: RepeError, reason: &'static str },
    /// Pull the chunks.
    Pull(PullPlan),
}

/// Decides, before a byte is pulled, whether a stream can be put to the chosen
/// use.
pub fn start_pull(out: StreamOutput<'_>, open: &OpenInfo) -> (r: PullStart)
    ensures
        match output_fault(out, *open) {
            None => r == PullStart::Pull(plan_for(out, *open)),
            Some(m) => r matches PullStart::Refuse { error, reason } && error@ == invalid_data(m)
                && reason@ == "output incompatible with stream tags"@,
        },
{
    match pull_plan(out, open) {
        Ok(plan) => PullStart::Pull(plan),
        Err(error) => PullStart::Refuse { error, reason: REASON_INCOMPATIBLE_OUTPUT },
    }
}

/// How a pull of a numeric array begins: whether the bytes are to be decompressed,
/// or `None` where the stream is refused.
pub open spec fn bulk_plan(open: OpenInfo) -> Option<bool> {
    if open.format == BodyFormat::Beve.wire() {
        Some(open.compression == Compression::Zstd)
    } else {
        None
    }
}

/// Decides whether a stream can be read as a numeric array, and whether it is
/// to be decompressed first.
pub fn start_bulk_pull(open: &OpenInfo) -> (r: PullStart)
    ensures
        match bulk_plan(*open) {
            Some(decompress) => r == PullStart::Pull(PullPlan::Decode { decompress }),
            None => r is Refuse,
        },
        if open.format == BodyFormat::Beve.wire() {
            r == PullStart::Pull(
                PullPlan::Decode { decompress: open.compression == Compression::Zstd },
            )
        } else {
            r matches PullStart::Refuse { error, reason } && error@ == invalid_data(
                "svs: bulk slice decode needs format=BEVE, got format "@ + text::decimal(
                    open.format as nat,
                ),
            ) && reason@ == "format incompatible with bulk decode"@
        },
{
    match require_beve(open) {
        Ok(_) => PullStart::Pull(
            PullPlan::Decode { decompress: open.compression == Compression::Zstd },
        ),
        Err(error) => PullStart::Refuse { error, reason: REASON_INCOMPATIBLE_FORMAT },
    }
}

/// What is done with a file.
pub enum FileEnd {
    /// Give it its name.
    Commit,
    /// Remove it, cancel the stream for this reason and return the error.
    Discard { error: RepeError, reason: &'static str },
}

/// What an operation without a result came to.
pub open spec fn transfer_outcome(r: Result<(), RepeError>) -> Result<(), ErrorModel> {
    match r {
        Ok(_) => Ok(()),
        Err(e) => Err(e@),
    }
}

/// What is done with a file: `None` where it gets its name, and otherwise the
/// error for which it is removed.
pub open spec fn file_end(end: FileEnd) -> Option<ErrorModel> {
    match end {
        FileEnd::Commit => None,
        FileEnd::Discard { error, .. } => Some(error@),
    }
}

/// What is done with a file that was filled from a stream and then brought to
/// disk.
pub open spec fn settled_file(
    last_seen: bool,
    filled: Result<(), ErrorModel>,
    synced: Result<(), ErrorModel>,
) -> Option<ErrorModel> {
    match filled {
        Err(e) => Some(e),
        Ok(_) => if !last_seen {
            Some(
                ErrorModel::Io {
                    kind: IoKind::UnexpectedEof,
                    message: "svs: stream ended without a final chunk"@,
                },
            )
        } else {
            match synced {
                Err(e) => Some(e),
                Ok(_) => None,
            }
        },
    }
}

/// Decides what is done with a file that was filled from a stream and then
/// brought to disk. It gets its name only if both went well and the last chunk
/// had arrived, so that a transfer that broke off never looks complete.
pub fn settle_file(
    reader: &ChunkReader,
    filled: Result<(), RepeError>,
    synced: Result<(), RepeError>,
) -> (r: FileEnd)
    ensures
        r is Commit == (filled is Ok && reader@.last_seen && synced is Ok),
        file_end(r) == settled_file(
            reader@.last_seen,
            transfer_outcome(filled),
            transfer_outcome(synced),
        ),
        r matches FileEnd::Discard { error, reason } ==> reason@ == "receiver aborted"@ && match filled {
            Err(e) => error == e,
            Ok(_) => if !reader@.last_seen {
                error@ == (ErrorModel::Io {
                    kind: IoKind::UnexpectedEof,
                    message: "svs: stream ended without a final chunk"@,
                })
            } else {
                synced == Err::<(), RepeError>(error)
            },
        },
{
    let written = match filled {
        Err(e) => Err(e),
        Ok(_) => match reader.check_complete() {
            Err(e) => Err(e),
            Ok(_) => synced,
        },
    };
    match written {
        Ok(_) => FileEnd::Commit,
        Err(error) => FileEnd::Discard { error, reason: REASON_ABORTED },
    }
}

/// The error for a decoder that did not finish.
pub fn consume_failed_error(reason: &str) -> (e: RepeError)
    ensures
        e@ == (ErrorModel::Io {
            kind: IoKind::Other,
            message: "svs consume task failed: "@ + reason@,
        }),
{
    RepeError::io(IoKind::Other, concat2("svs consume task failed: ", reason).as_str())
}

/// Serves the three routes of a value stream.
pub fn register_svs<H: HandlerErased, M: Middleware<Composed<H>>>(
    router: Router<H, M>,
    open: Arc<H>,
    next: Arc<H>,
    cancel: Arc<H>,
) -> (r: Router<H, M>)
    requires
        router.wf(),
    ensures
        r.wf(),
        r@ == router@.with_route(ROUTE_OPEN@, RawHandler::Plain(open)).with_route(
            ROUTE_NEXT@,
            RawHandler::Plain(next),
        ).with_route(ROUTE_CANCEL@, RawHandler::Plain(cancel)),
{
    router.with_erased_handler(ROUTE_OPEN, open).with_erased_handler(
        ROUTE_NEXT,
        next,
    ).with_erased_handler(ROUTE_CANCEL, cancel)
}

/// A stream is refused for a use exactly where it does not fit: a compressed file
/// has to come compressed, a file of BEVE has to be compressed BEVE, a value has to
/// be BEVE, compressed or not, and a raw file may be anything.
pub proof fn a_stream_is_refused_only_where_it_does_not_fit(out: StreamOutput, open: OpenInfo)
    ensures
        out is BeveZstdFile ==> (output_fault(out, open) is None <==> open.compression
            == Compression::Zstd),
        out is BeveFile ==> (output_fault(out, open) is None <==> open.compression
            == Compression::Zstd && open.format == 1),
        out is Value ==> (output_fault(out, open) is None <==> open.format == 1),
        out is RawFile ==> output_fault(out, open) is None,
{
}

/// Whatever a stream is put to, the content is what comes of it: a value and a
/// file of content are had from what the codec undoes, where there is a codec, and
/// from the bytes as they are, where there is none. Only a compressed file keeps
/// the bytes of a compressed stream.
pub proof fn a_plan_undoes_the_codec(out: StreamOutput, open: OpenInfo)
    requires
        output_fault(out, open) is None,
    ensures
        out is Value ==> plan_for(out, open) == (PullPlan::Decode {
            decompress: open.compression == Compression::Zstd,
        }),
        out is BeveFile ==> plan_for(out, open) == PullPlan::Decompress,
        out is RawFile ==> (plan_for(out, open) == PullPlan::Decompress <==> open.compression
            == Compression::Zstd),
        out is RawFile ==> (plan_for(out, open) == PullPlan::Copy <==> open.compression
            == Compression::Plain),
        out is BeveZstdFile ==> plan_for(out, open) == PullPlan::Copy,
{
}

/// A codec has its own tag on the wire, and other tags stand for none.
pub proof fn a_codec_has_its_tag(c: Compression, tag: u8)
    ensures
        c == Compression::Plain <==> c.wire() == 0,
        c == Compression::Zstd <==> c.wire() == 1,
        Compression::of_wire(tag) == Some(c) <==> c.wire() == tag,
        Compression::of_wire(tag) is None <==> tag > 1,
{
}

/// The codec of a stream is the one that was asked for: plain content goes as it
/// is, and is read as it is; compressed content is what zstd makes of it at the
/// level that was set, and is read as what zstd makes of the bytes.
pub proof fn a_stream_goes_through_its_codec(content: Seq<u8>, bytes: Seq<u8>, opts: StreamOpts)
    ensures
        opts.compression == Compression::Plain ==> encoded_content(content, opts) == Ok::<
            Seq<u8>,
            Seq<char>,
        >(content),
        opts.compression == Compression::Zstd ==> encoded_content(content, opts) == zstd_frame(
            content,
            opts.zstd_level,
        ),
        decoded(bytes, Compression::Plain) == Ok::<Seq<u8>, ErrorModel>(bytes),
        zstd_content(bytes) matches Ok(read) ==> decoded(bytes, Compression::Zstd) == Ok::<
            Seq<u8>,
            ErrorModel,
        >(read),
        zstd_content(bytes) matches Err(e) ==> decoded(bytes, Compression::Zstd) == Err::<
            Seq<u8>,
            ErrorModel,
        >(ErrorModel::Io { kind: e.0, message: e.1 }),
{
}

/// A consumer goes on with a stream exactly where the server speaks its version
/// and names a codec that it knows.
pub proof fn an_open_response_is_refused_only_for_cause(open: OpenResponse)
    ensures
        open_info(open) is Ok <==> open.version == 1 && open.compression <= 1,
        open_info(open) matches Ok(info) ==> info.stream_id == open.stream_id && info.format
            == open.format && info.compression.wire() == open.compression,
        open_info(open) matches Err(e) ==> (e matches ErrorModel::Io { kind, .. } && kind
            == IoKind::InvalidData),
{
}

/// A producer's failure is what the consumer hears, in its words, as soon as no
/// chunk before it is left to hand out; and until it is known what follows a
/// chunk, the consumer waits.
pub proof fn a_failure_is_passed_on(chunk: Seq<u8>, m: Seq<char>, rest: Seq<MsgModel>, closed: bool)
    ensures
        pull_answer(seq![MsgModel::Fail(m)] + rest, closed) == Some(
            Err::<(Seq<u8>, bool), Seq<char>>(m),
        ),
        pull_answer(seq![MsgModel::Chunk(chunk), MsgModel::Fail(m)] + rest, closed) == Some(
            Err::<(Seq<u8>, bool), Seq<char>>(m),
        ),
        pull_answer(seq![MsgModel::End] + rest, closed) == Some(
            Ok::<(Seq<u8>, bool), Seq<char>>((Seq::empty(), true)),
        ),
        pull_answer(Seq::empty(), false) is None,
        pull_answer(seq![MsgModel::Chunk(chunk)], false) is None,
        pull_answer(Seq::empty(), true) matches Some(Err(_)),
        pull_answer(seq![MsgModel::Chunk(chunk)], true) matches Some(Err(_)),
{
}

/// A session hands out the chunks of its producer until the last or a failure, and
/// nothing but a refusal afterwards.
pub proof fn a_finished_session_hands_out_nothing(s: SessionModel)
    ensures
        !s.done ==> s.next_answer() == pull_answer(s.feed, s.closed),
        !s.done ==> s.after_next().feed == pull_rest(s.feed, s.closed),
        !s.done ==> (s.after_next().done <==> (s.next_answer() matches Some(Err(_))) || (
        s.next_answer() matches Some(Ok(chunk)) && chunk.1)),
        s.done ==> (s.next_answer() matches Some(Err(_))) && s.after_next() == s,
        s.after_next().closed == s.closed,
        s.next_answer() is None ==> s.after_next().feed == s.feed,
{
}

/// A reply of a stream goes back to its request: a chunk under its id, in raw
/// bytes, with its flag; a failure under its id, as an internal error, in the words
/// of the producer.
pub proof fn a_stream_reply_belongs_to_its_request(
    req: Header,
    chunk: Seq<u8>,
    last: bool,
    m: Seq<char>,
    code: ErrorCode,
)
    ensures
        next_reply_model(req, Ok::<(Seq<u8>, bool), Seq<char>>((chunk, last))).header.id == req.id,
        next_reply_model(req, Ok::<(Seq<u8>, bool), Seq<char>>((chunk, last))).header.ec == 0,
        next_reply_model(req, Ok::<(Seq<u8>, bool), Seq<char>>((chunk, last))).header.body_format
            == 0,
        next_reply_model(req, Ok::<(Seq<u8>, bool), Seq<char>>((chunk, last))).body == chunk,
        next_reply_model(req, Ok::<(Seq<u8>, bool), Seq<char>>((chunk, last))).query == seq![
            if last {
                1u8
            } else {
                0u8
            },
        ],
        next_reply_model(req, Err::<(Seq<u8>, bool), Seq<char>>(m)).header.id == req.id,
        next_reply_model(req, Err::<(Seq<u8>, bool), Seq<char>>(m)).header.ec
            == ErrorCode::InternalError.wire(),
        vstd::utf8::decode_utf8(next_reply_model(req, Err::<(Seq<u8>, bool), Seq<char>>(m)).body)
            == m,
        svs_error(req, code, m).header.id == req.id,
        svs_error(req, code, m).header.ec == code.wire(),
        vstd::utf8::decode_utf8(svs_error(req, code, m).body) == m,
{
    vstd::utf8::encode_utf8_decode_utf8(m);
}

/// A chunk that a server hands out is what the consumer reads from the frame of
/// the reply, and the consumer sees the last one for the last.
pub proof fn a_chunk_is_read_as_it_was_handed_out(req: Header, chunk: Seq<u8>, last: bool)
    requires
        49 + chunk.len() <= u64::MAX,
    ensures
        ({
            let reply = chunk_reply(req, chunk, last);
            message::parse_exact(message::frame_bytes(reply.header, reply.query, reply.body))
                matches Ok(m) && m.header.id == req.id && m.header.ec == 0 && m.body == chunk && (
            flags_last(m) <==> last)
        }),
{
    let reply = chunk_reply(req, chunk, last);
    let b = message::frame_bytes(reply.header, reply.query, reply.body);
    assert(b + Seq::<u8>::empty() =~= b);
    message::frame_round_trip(reply.header, reply.query, reply.body, Seq::empty());
}

/// A new stream is found under the id that it was given; the others are as they
/// were.
pub proof fn an_enrolled_stream_is_found<S>(t: TableModel<S>, session: S, other: u64)
    requires
        other != t.next_id,
    ensures
        t.enrolled(session).sessions.contains_key(t.next_id),
        t.enrolled(session).sessions[t.next_id] == session,
        t.enrolled(session).sessions.contains_key(other) == t.sessions.contains_key(other),
        t.sessions.contains_key(other) ==> t.enrolled(session).sessions[other]
            == t.sessions[other],
        t.next_id < u64::MAX ==> t.enrolled(session).next_id == t.next_id + 1,
{
}

/// The routes of value streams are where clients look for them.
pub proof fn the_routes_are_where_clients_look()
    ensures
        ROUTE_OPEN@ == "/_svs/open"@,
        ROUTE_NEXT@ == "/_svs/next"@,
        ROUTE_CANCEL@ == "/_svs/cancel"@,
        SVS_VERSION == 1,
{
}

/// The bytes that a consumer has read once each reply has come and was read to its
/// end, and whether the last chunk was among them.
pub open spec fn pulled_through(reader: ReaderModel, replies: Seq<MessageModel>) -> (Seq<u8>, bool)
    decreases replies.len(),
{
    if replies.len() == 0 {
        (Seq::empty(), reader.last_seen)
    } else {
        let fed = reader.fed(replies[0]);
        let n = fed.unread.len();
        let bytes = match fed.read_out(n) {
            Some(b) => b,
            None => Seq::empty(),
        };
        let (rest, done) = pulled_through(fed.after_read(n), replies.drop_first());
        (bytes + rest, done)
    }
}

/// The replies that carry `chunks`, the last of them flagged.
pub open spec fn replies_for(req: Header, chunks: Seq<Seq<u8>>) -> Seq<MessageModel> {
    Seq::new(chunks.len(), |i: int| chunk_reply(req, chunks[i], i == chunks.len() - 1))
}

/// What a consumer reads is what the server handed out: the chunks one after the
/// other, and the stream is complete once the last has come, not before.
pub proof fn a_consumer_reads_what_was_handed_out(
    req: Header,
    reader: ReaderModel,
    chunks: Seq<Seq<u8>>,
    first: nat,
)
    requires
        !reader.last_seen,
        first < chunks.len(),
    ensures
        pulled_through(reader, replies_for(req, chunks)) == (concat(chunks), true),
        pulled_through(reader, replies_for(req, chunks).subrange(0, first as int)).1 == false,
{
    tail_is_read(req, reader, chunks);
    unflagged_is_unfinished(reader, replies_for(req, chunks).subrange(0, first as int));
}

proof fn unflagged_is_unfinished(reader: ReaderModel, replies: Seq<MessageModel>)
    requires
        !reader.last_seen,
        forall|i: int| 0 <= i < replies.len() ==> !flags_last(#[trigger] replies[i]),
    ensures
        pulled_through(reader, replies).1 == false,
    decreases replies.len(),
{
    if replies.len() > 0 {
        assert(!flags_last(replies[0]));
        let fed = reader.fed(replies[0]);
        let rest = replies.drop_first();
        assert forall|i: int| 0 <= i < rest.len() implies !flags_last(#[trigger] rest[i]) by {
            assert(rest[i] == replies[i + 1]);
        }
        unflagged_is_unfinished(fed.after_read(fed.unread.len()), rest);
    }
}

proof fn tail_is_read(req: Header, reader: ReaderModel, chunks: Seq<Seq<u8>>)
    requires
        !reader.last_seen,
        chunks.len() > 0,
    ensures
        pulled_through(reader, replies_for(req, chunks)) == (concat(chunks), true),
    decreases chunks.len(),
{
    let replies = replies_for(req, chunks);
    let rest = chunks.drop_first();
    let fed = reader.fed(replies[0]);
    let n = fed.unread.len();
    assert(fed.unread == chunks[0]);
    assert(fed.unread.subrange(0, n as int) =~= chunks[0]);
    let bytes = match fed.read_out(n) {
        Some(b) => b,
        None => Seq::empty(),
    };
    assert(bytes =~= chunks[0]);
    let next = fed.after_read(n);
    if chunks.len() == 1 {
        assert(replies.drop_first() =~= Seq::<MessageModel>::empty());
        assert(rest =~= Seq::<Seq<u8>>::empty());
        assert(concat(rest) == Seq::<u8>::empty());
        assert(chunks[0] + Seq::<u8>::empty() =~= chunks[0]);
        assert(pulled_through(next, replies.drop_first()) == (Seq::<u8>::empty(), true));
    } else {
        assert(replies.drop_first() =~= replies_for(req, rest));
        tail_is_read(req, next, rest);
    }
}

/// A read gives the bytes that came next, as many as were asked for if there are
/// so many, and leaves the others; it ends only where the last chunk has come, and
/// asks for the next chunk only where nothing is left of this one.
pub proof fn a_read_loses_nothing(reader: ReaderModel, max: nat, reply: MessageModel)
    ensures
        reader.read_out(max) matches Some(out) ==> out + reader.after_read(max).unread
            == reader.unread && out.len() <= max && (out.len() == max || out == reader.unread),
        reader.read_out(max) is None <==> reader.unread.len() == 0 && !reader.last_seen,
        reader.after_read(max).last_seen == reader.last_seen,
        reader.after_read(max).stream_id == reader.stream_id,
        reader.fed(reply).unread == reply.body,
        reader.fed(reply).last_seen <==> reader.last_seen || (reply.query.len() > 0
            && reply.query[0] == 1),
        reader.fed(reply).stream_id == reader.stream_id,
{
    if let Some(out) = reader.read_out(max) {
        assert(out + reader.after_read(max).unread =~= reader.unread);
    }
}

/// A loop that feeds a decoder gives it every chunk that holds something, and goes
/// on until the one that is flagged.
pub proof fn a_decoder_gets_every_chunk(req: Header, chunk: Seq<u8>, last: bool)
    ensures
        step_of(chunk_reply(req, chunk, last)).1 == last,
        chunk.len() > 0 ==> step_of(chunk_reply(req, chunk, last)).0 == Some(chunk),
        chunk.len() == 0 ==> step_of(chunk_reply(req, chunk, last)).0 is None,
{
}

/// A resource that is there is opened: the consumer learns of a stream that it can
/// then ask for, with the format and the codec that it has. What could not be read
/// or is not there is refused, and nothing is opened.
pub proof fn a_resource_that_is_there_is_opened<S>(
    t: TableModel<S>,
    req: Header,
    name: Seq<char>,
    session: S,
    opts: StreamOpts,
    format: u16,
)
    ensures
        ({
            let answer = t.open_answer(req, Some(name), true, opts, format);
            let after = t.after_open(Some(name), Some(session));
            answer matches Ok(response) && {
                &&& open_info(response) == Ok::<OpenInfo, ErrorModel>(
                    OpenInfo {
                        stream_id: response.stream_id,
                        format,
                        compression: opts.compression,
                    },
                )
                &&& after.sessions.contains_key(response.stream_id)
                &&& after.sessions[response.stream_id] == session
                &&& after.next_target(req, Some(response.stream_id)) == Ok::<u64, MessageModel>(
                    response.stream_id,
                )
            }
        }),
        t.open_answer(req, Some(name), false, opts, format) matches Err(m) && m.header.id == req.id
            && m.header.ec == ErrorCode::MethodNotFound.wire(),
        t.open_answer(req, None, true, opts, format) matches Err(m) && m.header.id == req.id
            && m.header.ec == ErrorCode::InvalidBody.wire(),
        t.after_open(None, Some(session)) == t,
        t.after_open(Some(name), None) == t,
{
}

/// A stream can be asked for while it is live, and is answered an error once it is
/// released; releasing one leaves the others live.
pub proof fn a_released_stream_is_gone<S>(t: TableModel<S>, req: Header, id: u64, other: u64)
    requires
        other != id,
    ensures
        t.next_target(req, Some(id)) == Ok::<u64, MessageModel>(id) <==> t.sessions.contains_key(
            id,
        ),
        t.after_cancel(Some(id)).next_target(req, Some(id)) matches Err(m) && m.header.id == req.id
            && m.header.ec == ErrorCode::InvalidQuery.wire(),
        t.after_cancel(Some(id)).next_target(req, Some(other)) == t.next_target(req, Some(other)),
        t.sessions.contains_key(other) ==> t.after_cancel(Some(id)).sessions[other]
            == t.sessions[other],
        t.after_cancel(Some(id)).next_id == t.next_id,
        t.after_cancel(None) == t,
        t.next_target(req, None) matches Err(m) && m.header.id == req.id && m.header.ec
            == ErrorCode::InvalidBody.wire(),
{
}

/// A file gets its name only where everything went well and the last chunk had
/// come; otherwise it is removed for the first thing that went wrong.
pub proof fn a_file_is_complete_or_gone(
    last_seen: bool,
    filled: Result<(), ErrorModel>,
    synced: Result<(), ErrorModel>,
)
    ensures
        settled_file(last_seen, filled, synced) is None <==> filled is Ok && last_seen && synced
            is Ok,
        filled matches Err(e) ==> settled_file(last_seen, filled, synced) == Some(e),
        filled is Ok && !last_seen ==> (settled_file(last_seen, filled, synced) matches Some(
            ErrorModel::Io { kind, .. },
        ) && kind == IoKind::UnexpectedEof),
        filled is Ok && last_seen ==> (synced matches Err(e) ==> settled_file(
            last_seen,
            filled,
            synced,
        ) == Some(e)),
{
}

/// A numeric array can be pulled from any stream of BEVE, and is decompressed
/// exactly where the stream is compressed.
pub proof fn numbers_are_pulled_from_any_beve_stream(open: OpenInfo)
    ensures
        bulk_plan(open) is Some <==> open.format == 1,
        bulk_plan(open) matches Some(decompress) ==> (decompress <==> open.compression
            == Compression::Zstd),
{
}

/// A stream stays live until its last chunk was handed out or it has failed.
pub proof fn a_stream_is_live_until_it_ends(session: SessionModel)
    requires
        !session.done,
    ensures
        session.next_answer() is None ==> stays_live(session),
        session.next_answer() matches Some(Ok(chunk)) ==> (stays_live(session) <==> !chunk.1),
        session.next_answer() matches Some(Err(_)) ==> !stays_live(session),
{
}

} // verus!
