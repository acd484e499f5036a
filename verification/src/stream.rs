//! Backpressure-controlled transfers over notifies.
//!
//! A producer pushes a large payload to a peer in chunks. Three pieces keep it
//! in check:
//!
//! * window credit: the producer waits while the receiver is more than a
//!   window behind on its acknowledgements;
//! * an idle watchdog: a transfer without progress is cancelled;
//! * a replay ring: the most recent bodies are kept, so that a peer that
//!   reconnects can be brought up to date from the last offset it received.
//!
//! Times are nanoseconds of a monotonic clock, read by the caller. An operation
//! that can release a parked producer says so in its result, and the caller
//! then wakes it. [`TransferControl::wait_for_credit`] and
//! [`TransferControl::wait_for_reconnect`] are the producer's checks: `None`
//! tells it to park until it is woken or the deadline has passed.

use std::collections::{HashMap, VecDeque};
use std::hash::Hash;
use std::sync::Arc;
use crate::text::concat2;
use vstd::prelude::*;
use vstd::std_specs::hash::*;

verus! {

broadcast use vstd::std_specs::hash::group_hash_axioms;

/// Default number of unacknowledged bytes that a producer may have in flight.
pub const DEFAULT_WINDOW_BYTES: u64 = 67_108_864;

/// Default time that a producer waits for credit.
pub const DEFAULT_BACKPRESSURE_TIMEOUT: u64 = 30_000_000_000;

/// Default time without progress after which a transfer is cancelled.
pub const DEFAULT_IDLE_TIMEOUT: u64 = 60_000_000_000;

/// Default capacity of the replay ring.
pub const DEFAULT_REPLAY_RING_BYTES: u64 = 67_108_864;

/// Default time that a producer waits for its peer to come back.
pub const DEFAULT_RECONNECT_TIMEOUT: u64 = 30_000_000_000;

/// One body in the replay ring.
///
/// `offset` and `data_len` count logical bytes, the unit of acknowledgements.
/// `body_bytes` is what went over the wire, which may be longer.
pub struct RingChunk {
    pub offset: u64,
    pub data_len: u64,
    pub last: bool,
    pub body_bytes: Arc<Vec<u8>>,
}

/// What a [`RingChunk`] holds.
#[verifier::ext_equal]
pub struct ChunkModel {
    pub offset: u64,
    pub data_len: u64,
    pub last: bool,
    pub body: Seq<u8>,
}

impl ChunkModel {
    /// Offset of the first logical byte behind the chunk.
    pub open spec fn end(self) -> int {
        self.offset + self.data_len
    }
}

impl View for RingChunk {
    type V = ChunkModel;

    open spec fn view(&self) -> ChunkModel {
        ChunkModel {
            offset: self.offset,
            data_len: self.data_len,
            last: self.last,
            body: self.body_bytes@,
        }
    }
}

impl RingChunk {
    /// Another handle to the same body.
    pub fn share(&self) -> (c: RingChunk)
        ensures
            c@ == self@,
    {
        RingChunk {
            offset: self.offset,
            data_len: self.data_len,
            last: self.last,
            body_bytes: self.body_bytes.clone(),
        }
    }
}

/// Wire bytes that `chunks` hold together.
pub open spec fn held(chunks: Seq<ChunkModel>) -> nat
    decreases chunks.len(),
{
    if chunks.len() == 0 {
        0
    } else {
        chunks[0].body.len() + held(chunks.drop_first())
    }
}

/// Each chunk starts where the one before it ends, and every end is an offset.
pub open spec fn contiguous(chunks: Seq<ChunkModel>) -> bool {
    &&& forall|i: int| 0 <= i < chunks.len() ==> (#[trigger] chunks[i]).end() <= u64::MAX
    &&& forall|i: int, j: int|
        0 <= i && j == i + 1 && j < chunks.len() ==> #[trigger] chunks[j].offset
            == #[trigger] chunks[i].end()
}

/// `chunks` without the oldest entries that exceed `capacity`; the newest entry
/// always stays.
pub open spec fn evicted(chunks: Seq<ChunkModel>, capacity: nat) -> Seq<ChunkModel>
    decreases chunks.len(),
{
    if held(chunks) > capacity && chunks.len() > 1 {
        evicted(chunks.drop_first(), capacity)
    } else {
        chunks
    }
}

/// Whether a receiver that has everything below `offset` can be brought up to
/// date from `chunks`: the offset opens a chunk, or nothing is missing.
pub open spec fn covers_offset(chunks: Seq<ChunkModel>, offset: u64) -> bool {
    if chunks.len() == 0 {
        offset == 0
    } else {
        (exists|i: int| 0 <= i < chunks.len() && (#[trigger] chunks[i]).offset == offset)
            || chunks.last().end() == offset
    }
}

/// The chunks at or behind `offset`.
pub open spec fn tail_from(chunks: Seq<ChunkModel>, offset: u64) -> Seq<ChunkModel> {
    chunks.filter(|c: ChunkModel| c.offset >= offset)
}

/// The models of the chunks in a deque.
pub open spec fn chunk_models(chunks: Seq<RingChunk>) -> Seq<ChunkModel> {
    Seq::new(chunks.len(), |i: int| chunks[i]@)
}

/// Pushing one more chunk adds its bytes.
proof fn held_push(chunks: Seq<ChunkModel>, c: ChunkModel)
    ensures
        held(chunks.push(c)) == held(chunks) + c.body.len(),
    decreases chunks.len(),
{
    if chunks.len() == 0 {
        assert(chunks.push(c).drop_first() =~= Seq::<ChunkModel>::empty());
        assert(held(chunks.push(c).drop_first()) == 0);
    } else {
        held_push(chunks.drop_first(), c);
        assert(chunks.push(c).drop_first() =~= chunks.drop_first().push(c));
    }
}

/// What eviction keeps: a suffix with the newest chunk, within the capacity
/// unless that chunk alone exceeds it, and no chunk is dropped that would have
/// fit.
pub proof fn eviction_keeps_the_newest(chunks: Seq<ChunkModel>, capacity: nat)
    ensures
        evicted(chunks, capacity).len() <= chunks.len(),
        evicted(chunks, capacity) == chunks.subrange(
            chunks.len() - evicted(chunks, capacity).len(),
            chunks.len() as int,
        ),
        chunks.len() > 0 ==> evicted(chunks, capacity).len() > 0,
        held(evicted(chunks, capacity)) <= capacity || evicted(chunks, capacity).len() <= 1,
        contiguous(chunks) ==> contiguous(evicted(chunks, capacity)),
        forall|k: int|
            0 <= k < chunks.len() - evicted(chunks, capacity).len() ==> held(
                #[trigger] chunks.subrange(k, chunks.len() as int),
            ) > capacity,
    decreases chunks.len(),
{
    if held(chunks) > capacity && chunks.len() > 1 {
        let rest = chunks.drop_first();
        eviction_keeps_the_newest(rest, capacity);
        let kept = evicted(rest, capacity);
        assert(kept =~= chunks.subrange(chunks.len() - kept.len(), chunks.len() as int));
        if contiguous(chunks) {
            assert forall|i: int, j: int|
                0 <= i && j == i + 1 && j < rest.len() implies #[trigger] rest[j].offset
                == #[trigger] rest[i].end() by {
                assert(rest[j] == chunks[j + 1]);
                assert(rest[i] == chunks[i + 1]);
            }
            assert forall|i: int| 0 <= i < rest.len() implies (#[trigger] rest[i]).end()
                <= u64::MAX by {
                assert(rest[i] == chunks[i + 1]);
            }
        }
        assert forall|k: int| 0 <= k < chunks.len() - kept.len() implies held(
            #[trigger] chunks.subrange(k, chunks.len() as int),
        ) > capacity by {
            if k == 0 {
                assert(chunks.subrange(0, chunks.len() as int) =~= chunks);
            } else {
                assert(chunks.subrange(k, chunks.len() as int) =~= rest.subrange(
                    k - 1,
                    rest.len() as int,
                ));
            }
        }
    } else {
        assert(chunks.subrange(0, chunks.len() as int) =~= chunks);
    }
}

/// The most recently emitted bodies of the current file, within a byte budget.
pub struct ReplayRing {
    chunks: VecDeque<RingChunk>,
    bytes_held: u64,
    capacity_bytes: u64,
}

/// What a [`ReplayRing`] holds.
#[verifier::ext_equal]
pub struct RingModel {
    pub chunks: Seq<ChunkModel>,
    pub capacity: u64,
}

impl RingModel {
    /// The ring's invariant: a contiguous run of chunks, within the capacity
    /// unless a single chunk exceeds it.
    pub open spec fn wf(self) -> bool {
        &&& contiguous(self.chunks)
        &&& held(self.chunks) <= u64::MAX
        &&& held(self.chunks) <= self.capacity || self.chunks.len() <= 1
    }

    /// Whether a chunk at `offset` may follow what the ring holds.
    pub open spec fn accepts(self, offset: u64, data_len: u64) -> bool {
        &&& offset + data_len <= u64::MAX
        &&& self.chunks.len() > 0 ==> offset == self.chunks.last().end()
    }

    /// The ring after one more chunk.
    pub open spec fn pushed(self, c: ChunkModel) -> RingModel {
        RingModel { chunks: evicted(self.chunks.push(c), self.capacity as nat), ..self }
    }
}

impl View for ReplayRing {
    type V = RingModel;

    closed spec fn view(&self) -> RingModel {
        RingModel { chunks: chunk_models(self.chunks@), capacity: self.capacity_bytes }
    }
}

impl ReplayRing {
    /// The ring is what its model says, and counts its bytes right.
    pub closed spec fn wf(self) -> bool {
        &&& self@.wf()
        &&& self.bytes_held == held(self@.chunks)
    }

    /// An empty ring.
    pub fn new(capacity_bytes: u64) -> (r: ReplayRing)
        ensures
            r.wf(),
            r@ == (RingModel { chunks: Seq::empty(), capacity: capacity_bytes }),
    {
        let r = ReplayRing { chunks: VecDeque::new(), bytes_held: 0, capacity_bytes };
        assert(chunk_models(r.chunks@) =~= Seq::<ChunkModel>::empty());
        r
    }

    /// Wire bytes that the ring holds.
    pub fn bytes_held(&self) -> (n: u64)
        requires
            self.wf(),
        ensures
            n == held(self@.chunks),
    {
        self.bytes_held
    }

    /// Number of chunks that the ring holds.
    pub fn chunk_count(&self) -> (n: usize)
        ensures
            n == self@.chunks.len(),
    {
        self.chunks.len()
    }

    /// The `i`-th chunk, oldest first.
    pub fn chunk(&self, i: usize) -> (r: Option<&RingChunk>)
        ensures
            r is Some == (i < self@.chunks.len()),
            r matches Some(c) ==> c@ == self@.chunks[i as int],
    {
        if i < self.chunks.len() {
            Some(&self.chunks[i])
        } else {
            None
        }
    }

    /// Whether a chunk at `offset` may follow what the ring holds: chunks abut,
    /// and offsets do not overflow.
    pub fn accepts(&self, offset: u64, data_len: u64) -> (r: bool)
        requires
            self.wf(),
        ensures
            r == self@.accepts(offset, data_len),
    {
        if data_len > u64::MAX - offset {
            return false;
        }
        match self.highest_end_offset() {
            Some(end) => offset == end,
            None => true,
        }
    }

    /// Adds a chunk, and drops the oldest ones that exceed the capacity.
    pub fn push(&mut self, offset: u64, data_len: u64, last: bool, body_bytes: Vec<u8>)
        requires
            old(self).wf(),
            old(self)@.accepts(offset, data_len),
        ensures
            final(self).wf(),
            final(self)@ == old(self)@.pushed(
                (ChunkModel { offset, data_len, last, body: body_bytes@ }),
            ),
    {
        let ghost c = ChunkModel { offset, data_len, last, body: body_bytes@ };
        let ghost before = self@.chunks;
        let ghost whole = before.push(c);
        let wire_len: u64 = body_bytes.len() as u64;
        self.chunks.push_back(
            RingChunk { offset, data_len, last, body_bytes: Arc::new(body_bytes) },
        );
        let mut total: u128 = self.bytes_held as u128 + wire_len as u128;
        proof {
            held_push(before, c);
            assert(chunk_models(self.chunks@) =~= whole);
            eviction_keeps_the_newest(whole, self.capacity_bytes as nat);
            assert forall|i: int, j: int|
                0 <= i && j == i + 1 && j < whole.len() implies #[trigger] whole[j].offset
                == #[trigger] whole[i].end() by {
                if j < before.len() {
                    assert(whole[j] == before[j]);
                    assert(whole[i] == before[i]);
                }
            }
        }
        while total > self.capacity_bytes as u128 && self.chunks.len() > 1
            invariant
                self.capacity_bytes == old(self).capacity_bytes,
                self.chunks@.len() > 0,
                total == held(chunk_models(self.chunks@)),
                total <= 2 * (u64::MAX as u128),
                evicted(chunk_models(self.chunks@), self.capacity_bytes as nat) == evicted(
                    whole,
                    self.capacity_bytes as nat,
                ),
            decreases self.chunks@.len(),
        {
            let ghost now = chunk_models(self.chunks@);
            let front = self.chunks.pop_front();
            proof {
                assert(chunk_models(self.chunks@) =~= now.drop_first());
            }
            if let Some(front) = front {
                total = total - front.body_bytes.len() as u128;
            }
        }
        proof {
            let kept = chunk_models(self.chunks@);
            if kept.len() == 1 {
                assert(kept.drop_first() =~= Seq::<ChunkModel>::empty());
                assert(held(kept.drop_first()) == 0);
                assert(kept[0].body.len() == self.chunks@[0].body_bytes@.len());
                assert(kept[0].body.len() <= usize::MAX);
            }
        }
        self.bytes_held = total as u64;
    }

    /// Drops everything.
    pub fn clear(&mut self)
        ensures
            final(self).wf(),
            final(self)@ == (RingModel { chunks: Seq::empty(), ..old(self)@ }),
    {
        self.chunks.clear();
        self.bytes_held = 0;
        assert(chunk_models(self.chunks@) =~= Seq::<ChunkModel>::empty());
    }

    /// Offset of the first logical byte behind everything that the ring holds.
    pub fn highest_end_offset(&self) -> (r: Option<u64>)
        requires
            self.wf(),
        ensures
            r is Some == (self@.chunks.len() > 0),
            r matches Some(end) ==> end == self@.chunks.last().end(),
    {
        let n: usize = self.chunks.len();
        if n == 0 {
            return None;
        }
        let c = &self.chunks[n - 1];
        assert(self@.chunks.last() == c@);
        assert(self@.chunks[n - 1].end() <= u64::MAX);
        Some(c.offset + c.data_len)
    }

    /// Whether a receiver that has everything below `offset` can be brought up
    /// to date from the ring.
    pub fn covers(&self, offset: u64) -> (r: bool)
        requires
            self.wf(),
        ensures
            r == covers_offset(self@.chunks, offset),
    {
        let n: usize = self.chunks.len();
        if n == 0 {
            return offset == 0;
        }
        let mut i: usize = 0;
        while i < n
            invariant
                i <= n,
                n == self.chunks@.len(),
                n == self@.chunks.len(),
                forall|j: int| 0 <= j < i ==> (#[trigger] self@.chunks[j]).offset != offset,
            decreases n - i,
        {
            assert(self@.chunks[i as int] == self.chunks@[i as int]@);
            if self.chunks[i].offset == offset {
                return true;
            }
            i = i + 1;
        }
        match self.highest_end_offset() {
            Some(end) => end == offset,
            None => false,
        }
    }

    /// The chunks at or behind `offset`, oldest first.
    pub fn replay_from(&self, offset: u64) -> (r: Vec<RingChunk>)
        ensures
            chunk_models(r@) == tail_from(self@.chunks, offset),
    {
        let n: usize = self.chunks.len();
        let mut r: Vec<RingChunk> = Vec::new();
        let mut i: usize = 0;
        let ghost all = self@.chunks;
        proof {
            reveal(Seq::filter);
            assert(all.subrange(0, 0) =~= Seq::<ChunkModel>::empty());
            assert(chunk_models(r@) =~= tail_from(all.subrange(0, 0), offset));
        }
        while i < n
            invariant
                i <= n,
                n == self.chunks@.len(),
                all == self@.chunks,
                n == all.len(),
                chunk_models(r@) == tail_from(all.subrange(0, i as int), offset),
            decreases n - i,
        {
            let ghost had = r@;
            proof {
                reveal(Seq::filter);
                let next = all.subrange(0, i + 1);
                assert(next.drop_last() =~= all.subrange(0, i as int));
                assert(next.last() == self.chunks@[i as int]@);
            }
            if self.chunks[i].offset >= offset {
                r.push(self.chunks[i].share());
                assert(chunk_models(r@) =~= chunk_models(had).push(all[i as int]));
            }
            i = i + 1;
        }
        assert(all.subrange(0, n as int) =~= all);
        r
    }
}

/// A resume request, staged for the producer. The new peer is already in the
/// control's peer slot.
#[derive(Debug, Clone, Copy, PartialEq, Eq, Structural)]
pub struct PendingResume {
    pub resume_at_offset: u64,
}

/// Why no credit was granted.
#[derive(Debug, Clone)]
pub enum CreditError {
    /// The transfer was cancelled, for this reason.
    Cancelled(String),
    /// The deadline passed before the receiver caught up.
    Timeout,
}

impl CreditError {
    /// What the error says to a reader.
    pub fn text(&self) -> (s: String)
        ensures
            match *self {
                CreditError::Cancelled(reason) => s@ == "transfer cancelled: "@ + reason@,
                CreditError::Timeout => s@ == "credit timeout"@,
            },
    {
        match self {
            CreditError::Cancelled(reason) => concat2("transfer cancelled: ", reason.as_str()),
            CreditError::Timeout => "credit timeout".to_owned(),
        }
    }
}

/// How a wait for a reconnect ended.
#[derive(Debug, Clone)]
pub enum ReconnectOutcome {
    /// A resume request arrived and has been taken.
    ResumeReady(PendingResume),
    /// The transfer was cancelled, for this reason.
    Cancelled(String),
    /// The deadline passed without a resume request.
    Timeout,
}

/// What a [`ReconnectOutcome`] says.
pub enum ReconnectModel {
    ResumeReady(PendingResume),
    Cancelled(Seq<char>),
    Timeout,
}

/// What a wait for a reconnect came to; `None` where it goes on.
pub open spec fn reconnect_outcome(r: Option<ReconnectOutcome>) -> Option<ReconnectModel> {
    match r {
        None => None,
        Some(ReconnectOutcome::ResumeReady(p)) => Some(ReconnectModel::ResumeReady(p)),
        Some(ReconnectOutcome::Cancelled(reason)) => Some(ReconnectModel::Cancelled(reason@)),
        Some(ReconnectOutcome::Timeout) => Some(ReconnectModel::Timeout),
    }
}

/// Why no credit was granted, in what a [`CreditError`] says.
pub enum CreditFault {
    Cancelled(Seq<char>),
    Timeout,
}

/// What a wait for credit came to; `None` where it goes on.
pub open spec fn credit_outcome(r: Option<Result<(), CreditError>>) -> Option<
    Result<(), CreditFault>,
> {
    match r {
        None => None,
        Some(Ok(_)) => Some(Ok(())),
        Some(Err(CreditError::Cancelled(reason))) => Some(Err(CreditFault::Cancelled(reason@))),
        Some(Err(CreditError::Timeout)) => Some(Err(CreditFault::Timeout)),
    }
}

/// Why a resume request was turned down.
#[derive(Debug, Clone, Copy, PartialEq, Eq, Structural)]
pub enum ResumeRejection {
    /// The request is for another file than the current one.
    WrongFileIndex { requested: u32, current: u32 },
    /// The ring does not reach back to the requested offset.
    OutOfWindow,
    /// The transfer is cancelled.
    Cancelled,
}

impl ResumeRejection {
    /// Short stable text for the wire.
    pub open spec fn label(self) -> Seq<char> {
        match self {
            ResumeRejection::WrongFileIndex { .. } => "wrong_file_index"@,
            ResumeRejection::OutOfWindow => "out_of_window"@,
            ResumeRejection::Cancelled => "transfer_cancelled"@,
        }
    }

    pub fn reason(&self) -> (s: &'static str)
        ensures
            s@ == self.label(),
    {
        match self {
            ResumeRejection::WrongFileIndex { .. } => "wrong_file_index",
            ResumeRejection::OutOfWindow => "out_of_window",
            ResumeRejection::Cancelled => "transfer_cancelled",
        }
    }
}

/// The state of one transfer. `P` is the handle of a peer.
pub struct TransferModel<P> {
    pub window: u64,
    /// Logical bytes of the current file that have been sent.
    pub sent: u64,
    /// Logical bytes of the current file that the receiver has acknowledged.
    pub acked: u64,
    pub file: u32,
    /// Why the transfer was cancelled, if it was.
    pub cancelled: Option<Seq<char>>,
    pub last_chunk: u64,
    pub last_ack: u64,
    pub ring: RingModel,
    pub peer: Option<P>,
    pub pending: Option<PendingResume>,
}

impl<P> TransferModel<P> {
    /// The invariant: nothing is acknowledged that was not sent, and the ring
    /// is well-formed.
    pub open spec fn wf(self) -> bool {
        &&& self.acked <= self.sent
        &&& self.ring.wf()
    }

    /// A transfer that has not sent anything.
    pub open spec fn fresh(window: u64, capacity: u64, now: u64) -> TransferModel<P> {
        TransferModel {
            window,
            sent: 0,
            acked: 0,
            file: 0,
            cancelled: None,
            last_chunk: now,
            last_ack: now,
            ring: RingModel { chunks: Seq::empty(), capacity },
            peer: None,
            pending: None,
        }
    }

    /// Bytes that are sent and not acknowledged.
    pub open spec fn in_flight(self) -> int {
        self.sent - self.acked
    }

    /// Whether `chunk_len` more bytes may be sent: they fit in the window, or
    /// nothing is in flight.
    pub open spec fn has_credit(self, chunk_len: u64) -> bool {
        self.in_flight() == 0 || self.in_flight() + chunk_len <= self.window
    }

    /// After a peer was installed.
    pub open spec fn with_peer(self, peer: P) -> TransferModel<P> {
        TransferModel { peer: Some(peer), ..self }
    }

    /// After a body was put in the replay ring.
    pub open spec fn pushed(self, c: ChunkModel) -> TransferModel<P> {
        TransferModel { ring: self.ring.pushed(c), ..self }
    }

    /// Why a resume request would be turned down, if it would.
    pub open spec fn resume_fault(self, file_index: u32, offset: u64) -> Option<ResumeRejection> {
        if self.cancelled is Some {
            Some(ResumeRejection::Cancelled)
        } else if file_index != self.file {
            Some(ResumeRejection::WrongFileIndex { requested: file_index, current: self.file })
        } else if !covers_offset(self.ring.chunks, offset) {
            Some(ResumeRejection::OutOfWindow)
        } else {
            None
        }
    }

    /// After a resume request at `offset` was accepted: the new peer and the
    /// request are in place, and what the receiver has is acknowledged.
    pub open spec fn resumed(self, peer: P, offset: u64, now: u64) -> TransferModel<P> {
        TransferModel {
            peer: Some(peer),
            pending: Some(PendingResume { resume_at_offset: offset }),
            last_chunk: now,
            last_ack: now,
            acked: if self.acked < offset <= self.sent {
                offset
            } else {
                self.acked
            },
            ..self
        }
    }

    /// What the producer's check while its peer is gone comes to.
    pub open spec fn reconnect_answer(self, now: u64, deadline: u64) -> Option<ReconnectModel> {
        match (self.cancelled, self.pending) {
            (Some(reason), _) => Some(ReconnectModel::Cancelled(reason)),
            (None, Some(pending)) => Some(ReconnectModel::ResumeReady(pending)),
            (None, None) => if now >= deadline {
                Some(ReconnectModel::Timeout)
            } else {
                None
            },
        }
    }

    /// The transfer after that check: a request that was handed out is gone.
    pub open spec fn after_reconnect(self) -> TransferModel<P> {
        if self.cancelled is None {
            self.taken()
        } else {
            self
        }
    }

    /// What the producer's check before it sends comes to.
    pub open spec fn credit_answer(self, chunk_len: u64, now: u64, deadline: u64) -> Option<
        Result<(), CreditFault>,
    > {
        match self.cancelled {
            Some(reason) => Some(Err(CreditFault::Cancelled(reason))),
            None => if self.has_credit(chunk_len) {
                Some(Ok(()))
            } else if now >= deadline {
                Some(Err(CreditFault::Timeout))
            } else {
                None
            },
        }
    }

    /// What a resume request is answered.
    pub open spec fn resume_answer(self, file_index: u32, offset: u64) -> Result<
        u64,
        ResumeRejection,
    > {
        match self.resume_fault(file_index, offset) {
            Some(e) => Err(e),
            None => Ok(offset),
        }
    }

    /// The transfer after a resume request: as it was where the request was turned
    /// down.
    pub open spec fn after_resume(
        self,
        peer: P,
        file_index: u32,
        offset: u64,
        now: u64,
    ) -> TransferModel<P> {
        if self.resume_fault(file_index, offset) is None {
            self.resumed(peer, offset, now)
        } else {
            self
        }
    }

    /// After the staged resume request was taken.
    pub open spec fn taken(self) -> TransferModel<P> {
        TransferModel { pending: None, ..self }
    }

    /// After everything below `offset` was sent.
    pub open spec fn sent_to(self, offset: u64, now: u64) -> TransferModel<P> {
        TransferModel {
            sent: if offset > self.sent {
                offset
            } else {
                self.sent
            },
            last_chunk: now,
            ..self
        }
    }

    /// The acknowledged offset once the receiver has said that it has
    /// everything of file `file_index` below `offset`.
    pub open spec fn ack_point(self, file_index: u32, offset: u64) -> u64 {
        let capped = if offset <= self.sent {
            offset
        } else {
            self.sent
        };
        if file_index == self.file && capped > self.acked {
            capped
        } else {
            self.acked
        }
    }

    /// After an acknowledgement.
    pub open spec fn acked_to(self, file_index: u32, offset: u64, now: u64) -> TransferModel<P> {
        TransferModel { acked: self.ack_point(file_index, offset), last_ack: now, ..self }
    }

    /// After a cancellation: the first reason stays.
    pub open spec fn cancelled_by(self, reason: Seq<char>) -> TransferModel<P> {
        if self.cancelled is Some {
            self
        } else {
            TransferModel { cancelled: Some(reason), ..self }
        }
    }

    /// At the start of another file.
    pub open spec fn advanced(self, file_index: u32, now: u64) -> TransferModel<P> {
        TransferModel {
            file: file_index,
            sent: 0,
            acked: 0,
            ring: RingModel { chunks: Seq::empty(), ..self.ring },
            pending: None,
            last_chunk: now,
            last_ack: now,
            ..self
        }
    }

    /// Whether the transfer has made no progress for `idle_timeout`.
    pub open spec fn idle(self, now: u64, idle_timeout: u64) -> bool {
        let progress = if self.last_chunk >= self.last_ack {
            self.last_chunk
        } else {
            self.last_ack
        };
        if now >= progress {
            now - progress >= idle_timeout
        } else {
            idle_timeout == 0
        }
    }
}

/// Control of one transfer: credit window, acknowledgements, replay ring, peer
/// slot, cancellation and progress times.
pub struct TransferControl<P> {
    window_bytes: u64,
    sent_offset: u64,
    acked_offset: u64,
    current_file_index: u32,
    cancelled: Option<String>,
    last_chunk_at: u64,
    last_ack_at: u64,
    replay: ReplayRing,
    peer: Option<P>,
    pending_resume: Option<PendingResume>,
}

/// An optional text as characters.
pub open spec fn opt_text(s: Option<String>) -> Option<Seq<char>> {
    match s {
        Some(t) => Some(t@),
        None => None,
    }
}

impl<P> View for TransferControl<P> {
    type V = TransferModel<P>;

    closed spec fn view(&self) -> TransferModel<P> {
        TransferModel {
            window: self.window_bytes,
            sent: self.sent_offset,
            acked: self.acked_offset,
            file: self.current_file_index,
            cancelled: opt_text(self.cancelled),
            last_chunk: self.last_chunk_at,
            last_ack: self.last_ack_at,
            ring: self.replay@,
            peer: self.peer,
            pending: self.pending_resume,
        }
    }
}

impl<P> TransferControl<P> {
    /// The control is what its model says, and the model is well-formed.
    pub closed spec fn wf(self) -> bool {
        &&& self@.wf()
        &&& self.replay.wf()
    }

    /// A well-formed control has a well-formed model.
    pub proof fn wf_model(self)
        requires
            self.wf(),
        ensures
            self@.wf(),
    {
    }

    /// A control with the default replay capacity.
    pub fn new(window_bytes: u64, now: u64) -> (c: TransferControl<P>)
        ensures
            c.wf(),
            c@ == TransferModel::<P>::fresh(window_bytes, DEFAULT_REPLAY_RING_BYTES, now),
    {
        TransferControl::with_replay_capacity(window_bytes, DEFAULT_REPLAY_RING_BYTES, now)
    }

    /// A control with a window of `window_bytes` and a replay ring of
    /// `replay_capacity_bytes`.
    pub fn with_replay_capacity(window_bytes: u64, replay_capacity_bytes: u64, now: u64) -> (c:
        TransferControl<P>)
        ensures
            c.wf(),
            c@ == TransferModel::<P>::fresh(window_bytes, replay_capacity_bytes, now),
    {
        TransferControl {
            window_bytes,
            sent_offset: 0,
            acked_offset: 0,
            current_file_index: 0,
            cancelled: None,
            last_chunk_at: now,
            last_ack_at: now,
            replay: ReplayRing::new(replay_capacity_bytes),
            peer: None,
            pending_resume: None,
        }
    }

    /// Installs or replaces the peer that the producer sends to.
    pub fn set_peer(&mut self, peer: P)
        requires
            old(self).wf(),
        ensures
            final(self).wf(),
            final(self)@ == old(self)@.with_peer(peer),
            final(self)@ == TransferOp::SetPeer(peer).apply(old(self)@),
    {
        self.peer = Some(peer);
    }

    /// The peer that the producer sends to.
    pub fn peer(&self) -> (r: Option<&P>)
        ensures
            r is Some == self@.peer is Some,
            r matches Some(p) ==> self@.peer == Some(*p),
    {
        self.peer.as_ref()
    }

    /// Whether a body for `offset` may be put in the replay ring.
    pub fn accepts_replay(&self, offset: u64, data_len: u64) -> (r: bool)
        requires
            self.wf(),
        ensures
            r == self@.ring.accepts(offset, data_len),
    {
        self.replay.accepts(offset, data_len)
    }

    /// Puts a body in the replay ring. The producer does so before it sends,
    /// so that a failed send does not leave the ring without the body.
    pub fn push_replay(&mut self, offset: u64, data_len: u64, last: bool, body_bytes: Vec<u8>)
        requires
            old(self).wf(),
            old(self)@.ring.accepts(offset, data_len),
        ensures
            final(self).wf(),
            final(self)@ == old(self)@.pushed(
                (ChunkModel { offset, data_len, last, body: body_bytes@ }),
            ),
            final(self)@ == TransferOp::Push(
                (ChunkModel { offset, data_len, last, body: body_bytes@ }),
            ).apply(old(self)@),
    {
        self.replay.push(offset, data_len, last, body_bytes);
    }

    /// The chunks of the replay ring at or behind `offset`, oldest first.
    pub fn replay_chunks_from(&self, offset: u64) -> (r: Vec<RingChunk>)
        ensures
            chunk_models(r@) == tail_from(self@.ring.chunks, offset),
    {
        self.replay.replay_from(offset)
    }

    /// Checks and stages a resume from `last_received_offset`. Where it is
    /// accepted, a parked producer has to be woken.
    pub fn request_resume(
        &mut self,
        new_peer: P,
        file_index: u32,
        last_received_offset: u64,
        now: u64,
    ) -> (r: Result<u64, ResumeRejection>)
        requires
            old(self).wf(),
        ensures
            final(self).wf(),
            match old(self)@.resume_fault(file_index, last_received_offset) {
                Some(e) => r == Err::<u64, ResumeRejection>(e) && final(self)@ == old(self)@,
                None => r == Ok::<u64, ResumeRejection>(last_received_offset) && final(self)@
                    == old(self)@.resumed(new_peer, last_received_offset, now),
            },
            r == old(self)@.resume_answer(file_index, last_received_offset),
            final(self)@ == old(self)@.after_resume(
                new_peer,
                file_index,
                last_received_offset,
                now,
            ),
    {
        if self.cancelled.is_some() {
            return Err(ResumeRejection::Cancelled);
        }
        if file_index != self.current_file_index {
            return Err(
                ResumeRejection::WrongFileIndex {
                    requested: file_index,
                    current: self.current_file_index,
                },
            );
        }
        if !self.replay.covers(last_received_offset) {
            return Err(ResumeRejection::OutOfWindow);
        }
        self.peer = Some(new_peer);
        self.pending_resume = Some(PendingResume { resume_at_offset: last_received_offset });
        self.last_chunk_at = now;
        self.last_ack_at = now;
        if last_received_offset > self.acked_offset && last_received_offset <= self.sent_offset {
            self.acked_offset = last_received_offset;
        }
        Ok(last_received_offset)
    }

    /// The producer's check while its peer is gone: a cancellation comes
    /// first, then a staged resume request, which is taken, then the deadline.
    /// `None`: park.
    pub fn wait_for_reconnect(&mut self, now: u64, deadline: u64) -> (r: Option<ReconnectOutcome>)
        requires
            old(self).wf(),
        ensures
            final(self).wf(),
            match (old(self)@.cancelled, old(self)@.pending) {
                (Some(reason), _) => r matches Some(ReconnectOutcome::Cancelled(s)) && s@ == reason
                    && final(self)@ == old(self)@,
                (None, Some(pending)) => r == Some(ReconnectOutcome::ResumeReady(pending))
                    && final(self)@ == old(self)@.taken(),
                (None, None) => final(self)@ == old(self)@ && if now >= deadline {
                    r == Some(ReconnectOutcome::Timeout)
                } else {
                    r is None
                },
            },
            reconnect_outcome(r) == old(self)@.reconnect_answer(now, deadline),
            final(self)@ == old(self)@.after_reconnect(),
    {
        if let Some(reason) = &self.cancelled {
            return Some(ReconnectOutcome::Cancelled(reason.clone()));
        }
        if let Some(pending) = self.pending_resume {
            self.pending_resume = None;
            return Some(ReconnectOutcome::ResumeReady(pending));
        }
        if now >= deadline {
            return Some(ReconnectOutcome::Timeout);
        }
        None
    }

    /// The producer's check before it sends `chunk_len` bytes: a cancellation
    /// comes first, then the window, then the deadline. `None`: park.
    pub fn wait_for_credit(&self, chunk_len: u64, now: u64, deadline: u64) -> (r: Option<
        Result<(), CreditError>,
    >)
        requires
            self.wf(),
        ensures
            match self@.cancelled {
                Some(reason) => r matches Some(Err(CreditError::Cancelled(s))) && s@ == reason,
                None => if self@.has_credit(chunk_len) {
                    r == Some(Ok::<(), CreditError>(()))
                } else if now >= deadline {
                    r == Some(Err::<(), CreditError>(CreditError::Timeout))
                } else {
                    r is None
                },
            },
            credit_outcome(r) == self@.credit_answer(chunk_len, now, deadline),
    {
        if let Some(reason) = &self.cancelled {
            return Some(Err(CreditError::Cancelled(reason.clone())));
        }
        let in_flight: u64 = self.sent_offset - self.acked_offset;
        if in_flight == 0 || (in_flight <= self.window_bytes && chunk_len <= self.window_bytes
            - in_flight) {
            return Some(Ok(()));
        }
        if now >= deadline {
            return Some(Err(CreditError::Timeout));
        }
        None
    }

    /// Notes that everything below `new_offset` was sent. Only for a send that
    /// succeeded: the receiver cannot acknowledge anything else.
    pub fn record_sent(&mut self, new_offset: u64, now: u64)
        requires
            old(self).wf(),
        ensures
            final(self).wf(),
            final(self)@ == old(self)@.sent_to(new_offset, now),
            final(self)@ == (TransferOp::<P>::Sent { offset: new_offset, now }).apply(old(self)@),
    {
        if new_offset > self.sent_offset {
            self.sent_offset = new_offset;
        }
        self.last_chunk_at = now;
    }

    /// Applies an acknowledgement, capped to what was sent. One for another
    /// file, or for less than is acknowledged already, only counts as
    /// progress. True: credit was released, and a parked producer has to be
    /// woken.
    pub fn record_ack(&mut self, file_index: u32, received_through_offset: u64, now: u64) -> (wake:
        bool)
        requires
            old(self).wf(),
        ensures
            final(self).wf(),
            final(self)@ == old(self)@.acked_to(file_index, received_through_offset, now),
            wake == (final(self)@.acked > old(self)@.acked),
            wake == (TransferOp::<P>::Ack {
                file_index,
                offset: received_through_offset,
                now,
            }).wakes(old(self)@),
    {
        self.last_ack_at = now;
        if file_index == self.current_file_index {
            let capped: u64 = if received_through_offset <= self.sent_offset {
                received_through_offset
            } else {
                self.sent_offset
            };
            if capped > self.acked_offset {
                self.acked_offset = capped;
                return true;
            }
        }
        false
    }

    /// Cancels the transfer; the first reason stays. True: this call cancelled
    /// it, and a parked producer has to be woken.
    pub fn cancel(&mut self, reason: &str) -> (wake: bool)
        requires
            old(self).wf(),
        ensures
            final(self).wf(),
            final(self)@ == old(self)@.cancelled_by(reason@),
            wake == (old(self)@.cancelled is None),
            wake == TransferOp::<P>::Cancel(reason@).wakes(old(self)@),
    {
        if self.cancelled.is_none() {
            self.cancelled = Some(reason.to_owned());
            return true;
        }
        false
    }

    pub fn is_cancelled(&self) -> (r: bool)
        ensures
            r == self@.cancelled is Some,
    {
        self.cancelled.is_some()
    }

    /// Why the transfer was cancelled, if it was.
    pub fn cancel_reason(&self) -> (r: Option<String>)
        ensures
            opt_text(r) == self@.cancelled,
    {
        match &self.cancelled {
            Some(reason) => Some(reason.clone()),
            None => None,
        }
    }

    /// Starts another file: offsets, ring and staged resume are reset. A parked
    /// producer has to be woken.
    pub fn advance_to_file(&mut self, next_file_index: u32, now: u64)
        requires
            old(self).wf(),
        ensures
            final(self).wf(),
            final(self)@ == old(self)@.advanced(next_file_index, now),
    {
        self.current_file_index = next_file_index;
        self.sent_offset = 0;
        self.acked_offset = 0;
        self.replay.clear();
        self.pending_resume = None;
        self.last_chunk_at = now;
        self.last_ack_at = now;
    }

    /// When the last chunk was sent and the last acknowledgement arrived.
    pub fn timestamps(&self) -> (r: (u64, u64))
        ensures
            r.0 == self@.last_chunk,
            r.1 == self@.last_ack,
    {
        (self.last_chunk_at, self.last_ack_at)
    }

    /// What was sent and what was acknowledged.
    pub fn offsets(&self) -> (r: (u64, u64))
        ensures
            r.0 == self@.sent,
            r.1 == self@.acked,
    {
        (self.sent_offset, self.acked_offset)
    }

    /// The watchdog's check: cancels the transfer where it has made no
    /// progress for `idle_timeout`. True: it did, and a parked producer has to
    /// be woken.
    pub fn expire_if_idle(&mut self, now: u64, idle_timeout: u64) -> (wake: bool)
        requires
            old(self).wf(),
        ensures
            final(self).wf(),
            wake == (old(self)@.cancelled is None && old(self)@.idle(now, idle_timeout)),
            final(self)@ == if wake {
                old(self)@.cancelled_by("transfer idle"@)
            } else {
                old(self)@
            },
            wake == (TransferOp::<P>::Watch { now, idle_timeout }).wakes(old(self)@),
            final(self)@ == (TransferOp::<P>::Watch { now, idle_timeout }).apply(old(self)@),
    {
        if self.cancelled.is_some() {
            return false;
        }
        let progress: u64 = if self.last_chunk_at >= self.last_ack_at {
            self.last_chunk_at
        } else {
            self.last_ack_at
        };
        if now.saturating_sub(progress) >= idle_timeout {
            return self.cancel("transfer idle");
        }
        false
    }
}

/// Time between two scans of the watchdog.
pub open spec fn scan_interval(idle_timeout: u64) -> u64 {
    let quarter = idle_timeout / 4;
    if quarter > 5_000_000_000 {
        5_000_000_000
    } else if quarter < 1_000_000_000 {
        1_000_000_000
    } else {
        quarter
    }
}

/// Time between two scans of the watchdog: a quarter of the idle timeout, and
/// no less than one second nor more than five.
pub fn watchdog_tick(idle_timeout: u64) -> (tick: u64)
    ensures
        tick == scan_interval(idle_timeout),
        tick == if idle_timeout / 4 > 5_000_000_000 {
            5_000_000_000u64
        } else if idle_timeout / 4 < 1_000_000_000 {
            1_000_000_000u64
        } else {
            idle_timeout / 4
        },
{
    let quarter: u64 = idle_timeout / 4;
    if quarter > 5_000_000_000 {
        5_000_000_000
    } else if quarter < 1_000_000_000 {
        1_000_000_000
    } else {
        quarter
    }
}

/// The transfers in flight, by a key that the embedder chooses. `C` is the
/// handle of a control.
pub struct TransferRegistry<K: Hash + Eq + Copy, C> {
    map: HashMap<K, C>,
}

impl<K: Hash + Eq + Copy, C> View for TransferRegistry<K, C> {
    type V = Map<K, C>;

    closed spec fn view(&self) -> Map<K, C> {
        self.map@
    }
}

impl<K: Hash + Eq + Copy, C> TransferRegistry<K, C> {
    pub fn new() -> (r: TransferRegistry<K, C>)
        ensures
            r@ == Map::<K, C>::empty(),
    {
        TransferRegistry { map: HashMap::new() }
    }

    /// Registers a transfer, in place of one under the same key.
    pub fn register(&mut self, key: K, control: C)
        requires
            obeys_key_model::<K>(),
        ensures
            final(self)@ == old(self)@.insert(key, control),
    {
        self.map.insert(key, control);
    }

    /// Removes a transfer and hands it back.
    pub fn unregister(&mut self, key: K) -> (r: Option<C>)
        requires
            obeys_key_model::<K>(),
        ensures
            final(self)@ == old(self)@.remove(key),
            r == if old(self)@.contains_key(key) {
                Some(old(self)@[key])
            } else {
                None
            },
    {
        let r = self.map.remove(&key);
        assert(self.map@ =~= old(self)@.remove(key));
        r
    }

    pub fn get(&self, key: K) -> (r: Option<&C>)
        requires
            obeys_key_model::<K>(),
        ensures
            r is Some == self@.contains_key(key),
            r matches Some(c) ==> *c == self@[key],
    {
        self.map.get(&key)
    }

    /// Every registered transfer, in no particular order.
    pub fn snapshot(&self) -> (r: Vec<(K, &C)>)
        requires
            obeys_key_model::<K>(),
        ensures
            r@.len() == self@.len(),
            forall|i: int|
                0 <= i < r@.len() ==> self@.contains_key((#[trigger] r@[i]).0) && self@[r@[i].0]
                    == *r@[i].1,
            forall|k: K| #[trigger]
                self@.contains_key(k) ==> exists|i: int| 0 <= i < r@.len() && r@[i].0 == k,
    {
        let mut r: Vec<(K, &C)> = Vec::new();
        for entry in it: self.map.iter()
            invariant
                r@.len() == it.index(),
                forall|j: int| 0 <= j < r@.len() ==> r@[j] == (*it.seq()[j].0, it.seq()[j].1),
        {
            r.push((*entry.0, entry.1));
        }
        proof {
            let all = vstd::std_specs::iter::IteratorSpec::remaining(
                &spec_hash_map_iter(&self.map),
            );
            assert forall|k: K| #[trigger] self@.contains_key(k) implies exists|i: int|
                0 <= i < r@.len() && r@[i].0 == k by {
                assert(all.contains((&k, &self@[k])));
                let i = choose|i: int| 0 <= i < all.len() && all[i] == (&k, &self@[k]);
                assert(r@[i].0 == k);
            }
        }
        r
    }

    /// Number of registered transfers.
    pub fn len(&self) -> (n: usize)
        requires
            obeys_key_model::<K>(),
        ensures
            n == self@.len(),
    {
        self.map.len()
    }

    pub fn is_empty(&self) -> (r: bool)
        requires
            obeys_key_model::<K>(),
        ensures
            r == (self@.len() == 0),
    {
        self.len() == 0
    }
}

impl<K: Hash + Eq + Copy, C> Default for TransferRegistry<K, C> {
    fn default() -> (r: TransferRegistry<K, C>)
        ensures
            r@ == Map::<K, C>::empty(),
    {
        TransferRegistry::new()
    }
}

/// Everything that can happen to a transfer.
pub enum TransferOp<P> {
    SetPeer(P),
    Push(ChunkModel),
    Resume { peer: P, file_index: u32, offset: u64, now: u64 },
    TakeResume,
    Sent { offset: u64, now: u64 },
    Ack { file_index: u32, offset: u64, now: u64 },
    Cancel(Seq<char>),
    Advance { file_index: u32, now: u64 },
    Watch { now: u64, idle_timeout: u64 },
}

impl<P> TransferOp<P> {
    /// The transfer afterwards.
    pub open spec fn apply(self, m: TransferModel<P>) -> TransferModel<P> {
        match self {
            TransferOp::SetPeer(peer) => m.with_peer(peer),
            TransferOp::Push(c) => m.pushed(c),
            TransferOp::Resume { peer, file_index, offset, now } => m.after_resume(
                peer,
                file_index,
                offset,
                now,
            ),
            TransferOp::TakeResume => m.taken(),
            TransferOp::Sent { offset, now } => m.sent_to(offset, now),
            TransferOp::Ack { file_index, offset, now } => m.acked_to(file_index, offset, now),
            TransferOp::Cancel(reason) => m.cancelled_by(reason),
            TransferOp::Advance { file_index, now } => m.advanced(file_index, now),
            TransferOp::Watch { now, idle_timeout } => if m.idle(now, idle_timeout) {
                m.cancelled_by("transfer idle"@)
            } else {
                m
            },
        }
    }

    /// Whether the caller is told to wake a parked producer.
    pub open spec fn wakes(self, m: TransferModel<P>) -> bool {
        match self {
            TransferOp::SetPeer(_) => false,
            TransferOp::Push(_) => false,
            TransferOp::Resume { file_index, offset, .. } => m.resume_fault(
                file_index,
                offset,
            ) is None,
            TransferOp::TakeResume => false,
            TransferOp::Sent { .. } => false,
            TransferOp::Ack { file_index, offset, .. } => m.ack_point(file_index, offset) > m.acked,
            TransferOp::Cancel(_) => m.cancelled is None,
            TransferOp::Advance { .. } => true,
            TransferOp::Watch { now, idle_timeout } => m.cancelled is None && m.idle(
                now,
                idle_timeout,
            ),
        }
    }

    /// Whether the operation may be carried out: a chunk has to follow what the
    /// ring holds.
    pub open spec fn allowed(self, m: TransferModel<P>) -> bool {
        match self {
            TransferOp::Push(c) => m.ring.accepts(c.offset, c.data_len) && c.body.len()
                <= u64::MAX,
            _ => true,
        }
    }
}

/// No operation breaks the invariant of a transfer: what is acknowledged was
/// sent, and the ring is a contiguous run within its budget.
pub proof fn every_operation_keeps_the_invariant<P>(m: TransferModel<P>, op: TransferOp<P>)
    requires
        m.wf(),
        op.allowed(m),
    ensures
        op.apply(m).wf(),
{
    if let TransferOp::Push(c) = op {
        let before = m.ring.chunks;
        let whole = before.push(c);
        assert forall|i: int, j: int|
            0 <= i && j == i + 1 && j < whole.len() implies #[trigger] whole[j].offset
            == #[trigger] whole[i].end() by {
            if j < before.len() {
                assert(whole[j] == before[j]);
                assert(whole[i] == before[i]);
            }
        }
        eviction_keeps_the_newest(whole, m.ring.capacity as nat);
        let kept = evicted(whole, m.ring.capacity as nat);
        if kept.len() == 1 {
            assert(kept[0] == c);
            assert(kept.drop_first() =~= Seq::<ChunkModel>::empty());
            assert(held(kept.drop_first()) == 0);
        }
    }
}

/// Cancellation is final: once a transfer is cancelled, no operation lifts the
/// cancellation or changes its reason, and it can neither get credit nor resume.
pub proof fn cancellation_is_final<P>(m: TransferModel<P>, op: TransferOp<P>)
    requires
        m.cancelled is Some,
    ensures
        op.apply(m).cancelled == m.cancelled,
        forall|file_index: u32, offset: u64| #[trigger]
            m.resume_fault(file_index, offset) == Some(ResumeRejection::Cancelled),
{
}

/// Within a file, offsets never move back, and an acknowledgement never moves
/// past what was sent.
pub proof fn offsets_only_grow_within_a_file<P>(m: TransferModel<P>, op: TransferOp<P>)
    requires
        m.wf(),
        !(op is Advance),
    ensures
        op.apply(m).sent >= m.sent,
        op.apply(m).acked >= m.acked,
        op.apply(m).acked <= op.apply(m).sent,
        op.apply(m).file == m.file,
{
}

/// A producer that is parked is never forgotten: where an operation gives it a
/// reason to go on, the caller is told to wake it.
pub proof fn a_parked_producer_is_woken<P>(m: TransferModel<P>, op: TransferOp<P>, chunk_len: u64)
    requires
        m.wf(),
        m.cancelled is None,
    ensures
        !m.has_credit(chunk_len) && (op.apply(m).has_credit(chunk_len) || op.apply(
            m,
        ).cancelled is Some) ==> op.wakes(m),
        m.pending is None && (op.apply(m).pending is Some || op.apply(m).cancelled is Some)
            ==> op.wakes(m),
{
}

/// A producer that sends what it was given credit for stays within the window,
/// but for a single chunk that is larger than the window.
pub proof fn credit_bounds_what_is_in_flight<P>(m: TransferModel<P>, chunk_len: u64, now: u64)
    requires
        m.wf(),
        m.has_credit(chunk_len),
        m.sent + chunk_len <= u64::MAX,
    ensures
        m.sent_to((m.sent + chunk_len) as u64, now).in_flight() <= m.window || m.sent_to(
            (m.sent + chunk_len) as u64,
            now,
        ).in_flight() == chunk_len,
{
}

/// A chunk never starts before an older one.
proof fn contiguous_offsets_grow(chunks: Seq<ChunkModel>, i: int, j: int)
    requires
        contiguous(chunks),
        0 <= i <= j < chunks.len(),
    ensures
        chunks[i].offset <= chunks[j].offset,
    decreases j - i,
{
    if i < j {
        contiguous_offsets_grow(chunks, i, j - 1);
        assert(chunks[j].offset == chunks[j - 1].end());
    }
}

/// In a contiguous run the chunks at or behind an offset are its last ones.
proof fn tail_is_a_suffix(chunks: Seq<ChunkModel>, offset: u64) -> (k: int)
    requires
        contiguous(chunks),
    ensures
        0 <= k <= chunks.len(),
        tail_from(chunks, offset) == chunks.subrange(k, chunks.len() as int),
        forall|i: int| 0 <= i < k ==> (#[trigger] chunks[i]).offset < offset,
        forall|i: int| k <= i < chunks.len() ==> (#[trigger] chunks[i]).offset >= offset,
    decreases chunks.len(),
{
    reveal(Seq::filter);
    if chunks.len() == 0 {
        assert(chunks.subrange(0, 0) =~= chunks);
        0
    } else {
        let init = chunks.drop_last();
        assert forall|i: int, j: int|
            0 <= i && j == i + 1 && j < init.len() implies #[trigger] init[j].offset
            == #[trigger] init[i].end() by {
            assert(init[j] == chunks[j]);
            assert(init[i] == chunks[i]);
        }
        assert forall|i: int| 0 <= i < init.len() implies (#[trigger] init[i]).end()
            <= u64::MAX by {
            assert(init[i] == chunks[i]);
        }
        let k = tail_is_a_suffix(init, offset);
        assert forall|i: int| 0 <= i < init.len() implies (#[trigger] chunks[i]).offset
            <= chunks.last().offset && init[i] == chunks[i] by {
            contiguous_offsets_grow(chunks, i, chunks.len() - 1);
        }
        if chunks.last().offset >= offset {
            assert(tail_from(chunks, offset) =~= chunks.subrange(k, chunks.len() as int));
            assert forall|i: int| 0 <= i < k implies (#[trigger] chunks[i]).offset < offset by {
                assert(init[i].offset < offset);
            }
            assert forall|i: int| k <= i < chunks.len() implies (#[trigger] chunks[i]).offset
                >= offset by {
                if i < init.len() {
                    assert(init[i].offset >= offset);
                }
            }
            k
        } else {
            if k < init.len() {
                assert(init[k].offset >= offset);
            }
            assert(tail_from(chunks, offset) =~= chunks.subrange(
                chunks.len() as int,
                chunks.len() as int,
            ));
            chunks.len() as int
        }
    }
}

/// What a resume replays is exactly what the receiver misses: where the ring
/// covers the offset, the replayed chunks are the last ones of the ring, they
/// abut, they start at the offset and end where the ring ends. Nothing is
/// replayed only where nothing is missing.
pub proof fn a_resume_replays_exactly_what_is_missing(chunks: Seq<ChunkModel>, offset: u64)
    requires
        contiguous(chunks),
        covers_offset(chunks, offset),
    ensures
        contiguous(tail_from(chunks, offset)),
        tail_from(chunks, offset).len() <= chunks.len(),
        tail_from(chunks, offset) == chunks.subrange(
            chunks.len() - tail_from(chunks, offset).len(),
            chunks.len() as int,
        ),
        tail_from(chunks, offset).len() > 0 ==> tail_from(chunks, offset)[0].offset == offset,
        tail_from(chunks, offset).len() == 0 ==> if chunks.len() == 0 {
            offset == 0
        } else {
            chunks.last().end() == offset
        },
{
    let k = tail_is_a_suffix(chunks, offset);
    let tail = tail_from(chunks, offset);
    assert forall|i: int, j: int|
        0 <= i && j == i + 1 && j < tail.len() implies #[trigger] tail[j].offset
        == #[trigger] tail[i].end() by {
        assert(tail[j] == chunks[k + j]);
        assert(tail[i] == chunks[k + i]);
    }
    assert forall|i: int| 0 <= i < tail.len() implies (#[trigger] tail[i]).end() <= u64::MAX by {
        assert(tail[i] == chunks[k + i]);
    }
    if tail.len() > 0 {
        assert(tail[0] == chunks[k]);
        if exists|i: int| 0 <= i < chunks.len() && (#[trigger] chunks[i]).offset == offset {
            let i = choose|i: int| 0 <= i < chunks.len() && (#[trigger] chunks[i]).offset == offset;
            contiguous_offsets_grow(chunks, k, i);
        } else {
            contiguous_offsets_grow(chunks, k, chunks.len() - 1);
            assert(chunks.last().offset <= chunks.last().end());
            assert(chunks[chunks.len() - 1].offset >= offset);
        }
    } else {
        if exists|i: int| 0 <= i < chunks.len() && (#[trigger] chunks[i]).offset == offset {
            let i = choose|i: int| 0 <= i < chunks.len() && (#[trigger] chunks[i]).offset == offset;
            assert(chunks[i].offset < offset);
        }
    }
}

/// A receiver that reconnects gets everything that it misses and nothing else:
/// the producer is handed the offset that the receiver asked for, and what it
/// replays from there starts at that offset, leaves no gap, and ends where the
/// held chunks end. Only the peer, the times and the acknowledgements change.
pub proof fn a_resume_picks_up_where_the_receiver_stopped<P>(
    m: TransferModel<P>,
    peer: P,
    file_index: u32,
    offset: u64,
    now: u64,
    at: u64,
    deadline: u64,
)
    requires
        m.wf(),
        m.resume_fault(file_index, offset) is None,
    ensures
        m.resumed(peer, offset, now).reconnect_answer(at, deadline) == Some(
            ReconnectModel::ResumeReady(PendingResume { resume_at_offset: offset }),
        ),
        m.resumed(peer, offset, now).after_reconnect().pending is None,
        ({
            let after = m.resumed(peer, offset, now).after_reconnect();
            let replayed = tail_from(after.ring.chunks, offset);
            &&& after.ring.chunks == m.ring.chunks
            &&& replayed.len() > 0 ==> {
                &&& replayed[0].offset == offset
                &&& replayed.last() == m.ring.chunks.last()
                &&& forall|i: int, j: int|
                    0 <= i && j == i + 1 && j < replayed.len() ==> (#[trigger] replayed[j]).offset
                        == (#[trigger] replayed[i]).offset + replayed[i].data_len
            }
            &&& replayed.len() == 0 && m.ring.chunks.len() > 0 ==> offset
                == m.ring.chunks.last().offset + m.ring.chunks.last().data_len
            &&& m.ring.chunks.len() == 0 ==> offset == 0
        }),
        m.resumed(peer, offset, now).peer == Some(peer),
        m.resumed(peer, offset, now).cancelled is None,
        m.resumed(peer, offset, now).file == m.file && m.file == file_index,
        m.resumed(peer, offset, now).sent == m.sent,
        m.resumed(peer, offset, now).window == m.window,
        m.resumed(peer, offset, now).last_chunk == now,
        m.resumed(peer, offset, now).last_ack == now,
{
    a_resume_replays_exactly_what_is_missing(m.ring.chunks, offset);
    let replayed = tail_from(m.ring.chunks, offset);
    assert forall|i: int, j: int| 0 <= i && j == i + 1 && j < replayed.len() implies (
    #[trigger] replayed[j]).offset == (#[trigger] replayed[i]).offset + replayed[i].data_len by {
        assert(replayed[j].offset == replayed[i].end());
    }
}

/// What a receiver has is acknowledged by its resume: credit for it is free
/// again, and none that was free is taken back.
pub proof fn a_resume_acknowledges_what_the_receiver_has<P>(
    m: TransferModel<P>,
    peer: P,
    offset: u64,
    now: u64,
)
    requires
        m.wf(),
    ensures
        m.resumed(peer, offset, now).acked >= m.acked,
        offset <= m.sent ==> m.resumed(peer, offset, now).acked >= offset,
        m.resumed(peer, offset, now).acked == m.acked || m.resumed(peer, offset, now).acked
            == offset,
        m.resumed(peer, offset, now).acked <= m.sent,
        offset > m.sent ==> m.resumed(peer, offset, now).acked == m.acked,
{
}

/// A resume is turned down for a reason that holds, and for no other: a
/// cancelled transfer, another file, or an offset at which no held chunk begins
/// and the last one does not end.
pub proof fn a_resume_is_refused_only_for_cause<P>(
    m: TransferModel<P>,
    file_index: u32,
    offset: u64,
)
    ensures
        m.resume_fault(file_index, offset) == Some(ResumeRejection::Cancelled)
            <==> m.cancelled is Some,
        m.cancelled is None && file_index != m.file <==> m.resume_fault(file_index, offset)
            == Some(ResumeRejection::WrongFileIndex { requested: file_index, current: m.file })
            && file_index != m.file,
        m.resume_fault(file_index, offset) == Some(ResumeRejection::OutOfWindow) ==> {
            &&& forall|i: int|
                0 <= i < m.ring.chunks.len() ==> (#[trigger] m.ring.chunks[i]).offset != offset
            &&& m.ring.chunks.len() > 0 ==> m.ring.chunks.last().offset
                + m.ring.chunks.last().data_len != offset
            &&& m.ring.chunks.len() == 0 ==> offset != 0
        },
        m.cancelled is None && file_index == m.file && (exists|i: int|
            0 <= i < m.ring.chunks.len() && (#[trigger] m.ring.chunks[i]).offset == offset)
            ==> m.resume_fault(file_index, offset) is None,
        m.cancelled is None && file_index == m.file && m.ring.chunks.len() > 0
            && m.ring.chunks.last().offset + m.ring.chunks.last().data_len == offset
            ==> m.resume_fault(file_index, offset) is None,
        m.cancelled is None && file_index == m.file && m.ring.chunks.len() == 0 && offset == 0
            ==> m.resume_fault(file_index, offset) is None,
{
}

/// A chunk that is put in the ring can be replayed: it is the newest one, the
/// older ones that stay are those next to it, and nothing else changes.
pub proof fn a_pushed_chunk_can_be_replayed<P>(m: TransferModel<P>, c: ChunkModel)
    requires
        m.wf(),
        m.ring.accepts(c.offset, c.data_len),
    ensures
        m.pushed(c).ring.chunks.len() > 0,
        m.pushed(c).ring.chunks.last() == c,
        tail_from(m.pushed(c).ring.chunks, c.offset).len() > 0,
        tail_from(m.pushed(c).ring.chunks, c.offset).last() == c,
        covers_offset(m.pushed(c).ring.chunks, c.offset),
        held(m.ring.chunks) + c.body.len() <= m.ring.capacity ==> m.pushed(c).ring.chunks
            == m.ring.chunks.push(c),
        m.pushed(c).ring.capacity == m.ring.capacity,
        m.pushed(c) == (TransferModel { ring: m.pushed(c).ring, ..m }),
{
    let whole = m.ring.chunks.push(c);
    held_push(m.ring.chunks, c);
    eviction_keeps_the_newest(whole, m.ring.capacity as nat);
    let kept = m.pushed(c).ring.chunks;
    assert(kept.last() == whole.last());
    assert(kept[kept.len() - 1].offset == c.offset);
    reveal(Seq::filter);
    assert(tail_from(kept, c.offset) == tail_from(kept.drop_last(), c.offset).push(c));
}

/// A chunk is only taken where it continues the run: behind the last one, or
/// anywhere in an empty ring.
pub proof fn chunks_are_put_in_order(ring: RingModel, offset: u64, data_len: u64)
    ensures
        ring.accepts(offset, data_len) <==> offset + data_len <= u64::MAX && (ring.chunks.len() == 0
            || ring.chunks.last().offset + ring.chunks.last().data_len == offset),
{
}

/// What is sent moves the send point forward to it, never back, and counts as
/// progress. Nothing else changes.
pub proof fn sending_moves_the_send_point<P>(m: TransferModel<P>, offset: u64, now: u64)
    ensures
        m.sent_to(offset, now).sent >= offset,
        m.sent_to(offset, now).sent >= m.sent,
        m.sent_to(offset, now).sent == offset || m.sent_to(offset, now).sent == m.sent,
        m.sent_to(offset, now).last_chunk == now,
        m.sent_to(offset, now) == (TransferModel {
            sent: m.sent_to(offset, now).sent,
            last_chunk: now,
            ..m
        }),
{
}

/// An acknowledgement of the current file frees what it covers and no more, one
/// of another file frees nothing, and either counts as progress. Once all that
/// was sent is acknowledged, a chunk of any size may go.
pub proof fn an_acknowledgement_frees_what_it_covers<P>(
    m: TransferModel<P>,
    file_index: u32,
    offset: u64,
    now: u64,
    chunk_len: u64,
)
    requires
        m.wf(),
    ensures
        file_index == m.file && offset <= m.sent ==> m.acked_to(file_index, offset, now).acked
            >= offset,
        file_index == m.file && offset >= m.sent ==> m.acked_to(
            file_index,
            offset,
            now,
        ).in_flight() == 0 && m.acked_to(file_index, offset, now).has_credit(chunk_len),
        file_index != m.file || offset <= m.acked ==> m.acked_to(file_index, offset, now).acked
            == m.acked,
        m.acked_to(file_index, offset, now).acked >= m.acked,
        m.acked_to(file_index, offset, now).acked == m.acked || m.acked_to(
            file_index,
            offset,
            now,
        ).acked <= offset,
        m.acked_to(file_index, offset, now).last_ack == now,
        m.acked_to(file_index, offset, now) == (TransferModel {
            acked: m.acked_to(file_index, offset, now).acked,
            last_ack: now,
            ..m
        }),
{
}

/// Credit is given exactly where what is then unacknowledged fits in the window,
/// and for any chunk while nothing is unacknowledged. A producer that is not
/// cancelled waits no longer than its deadline, and one that is hears why.
pub proof fn credit_is_given_where_it_fits<P>(
    m: TransferModel<P>,
    chunk_len: u64,
    now: u64,
    deadline: u64,
)
    requires
        m.wf(),
    ensures
        m.credit_answer(chunk_len, now, deadline) == Some(Ok::<(), CreditFault>(()))
            <==> m.cancelled is None && (m.sent == m.acked || m.sent + chunk_len - m.acked
            <= m.window),
        m.cancelled matches Some(reason) ==> m.credit_answer(chunk_len, now, deadline) == Some(
            Err::<(), CreditFault>(CreditFault::Cancelled(reason)),
        ),
        m.credit_answer(chunk_len, now, deadline) is None ==> now < deadline,
        m.cancelled is None && m.sent != m.acked && m.sent + chunk_len - m.acked > m.window && now
            >= deadline ==> m.credit_answer(chunk_len, now, deadline) == Some(
            Err::<(), CreditFault>(CreditFault::Timeout),
        ),
{
}

/// A producer without a peer waits for a resume, a cancellation or its deadline,
/// and a cancellation comes before a resume.
pub proof fn a_reconnect_ends_with_what_happened<P>(m: TransferModel<P>, now: u64, deadline: u64)
    ensures
        m.cancelled matches Some(reason) ==> m.reconnect_answer(now, deadline) == Some(
            ReconnectModel::Cancelled(reason),
        ) && m.after_reconnect() == m,
        m.cancelled is None && m.pending is Some ==> m.reconnect_answer(now, deadline) == Some(
            ReconnectModel::ResumeReady(m.pending->0),
        ),
        m.cancelled is None && m.pending is None ==> m.reconnect_answer(now, deadline) == if now
            >= deadline {
            Some(ReconnectModel::Timeout)
        } else {
            None
        },
        m.cancelled is None ==> m.after_reconnect() == (TransferModel { pending: None, ..m }),
{
}

/// A transfer is idle only when neither a chunk nor an acknowledgement has come
/// for the whole timeout, and then it is. Any progress starts the time anew.
pub proof fn progress_keeps_a_transfer_alive<P>(
    m: TransferModel<P>,
    now: u64,
    later: u64,
    idle_timeout: u64,
    file_index: u32,
    offset: u64,
)
    requires
        now <= later,
        idle_timeout > 0,
    ensures
        later - now < idle_timeout ==> !m.sent_to(offset, now).idle(later, idle_timeout),
        later - now < idle_timeout ==> !m.acked_to(file_index, offset, now).idle(
            later,
            idle_timeout,
        ),
        m.idle(later, idle_timeout) <==> m.last_chunk + idle_timeout <= later && m.last_ack
            + idle_timeout <= later,
{
}

/// A cancellation takes effect unless one did before, and changes nothing else.
pub proof fn the_first_cancellation_counts<P>(
    m: TransferModel<P>,
    first: Seq<char>,
    second: Seq<char>,
)
    ensures
        m.cancelled is None ==> m.cancelled_by(first).cancelled == Some(first),
        m.cancelled_by(first).cancelled_by(second) == m.cancelled_by(first),
        m.cancelled_by(first) == (TransferModel { cancelled: m.cancelled_by(first).cancelled, ..m }),
        m.cancelled is Some ==> m.cancelled_by(first) == m,
{
}

/// Another file starts afresh: nothing of it is sent, acknowledged, held or to
/// be resumed, so that a chunk of any size at offset 0 may go. The peer, the
/// window and a cancellation stay.
pub proof fn another_file_starts_afresh<P>(
    m: TransferModel<P>,
    file_index: u32,
    now: u64,
    chunk_len: u64,
)
    ensures
        m.advanced(file_index, now) == (TransferModel {
            cancelled: m.cancelled,
            peer: m.peer,
            file: file_index,
            ..TransferModel::<P>::fresh(m.window, m.ring.capacity, now)
        }),
        m.advanced(file_index, now).has_credit(chunk_len),
        m.advanced(file_index, now).ring.accepts(0, chunk_len),
        m.advanced(file_index, now).sent == 0,
        m.advanced(file_index, now).acked == 0,
        m.advanced(file_index, now).ring.chunks.len() == 0,
        m.advanced(file_index, now).pending is None,
        m.advanced(file_index, now).file == file_index,
        m.advanced(file_index, now).last_chunk == now,
        m.advanced(file_index, now).last_ack == now,
        m.cancelled is None ==> m.advanced(file_index, now).resume_fault(file_index, 0) is None,
{
    assert(m.advanced(file_index, now).ring.chunks =~= Seq::<ChunkModel>::empty());
}

/// The ring counts the bytes that went over the wire.
pub proof fn held_bytes_add_up(older: Seq<ChunkModel>, c: ChunkModel)
    ensures
        held(Seq::<ChunkModel>::empty()) == 0,
        held(older.push(c)) == held(older) + c.body.len(),
{
    held_push(older, c);
}

/// A peer that is installed is the one that is sent to; the transfer is the same.
pub proof fn an_installed_peer_is_sent_to<P>(m: TransferModel<P>, peer: P)
    ensures
        m.with_peer(peer).peer == Some(peer),
        m.with_peer(peer) == (TransferModel { peer: Some(peer), ..m }),
{
}

/// A new transfer waits for nothing and may send at once.
pub proof fn a_new_transfer_may_send<P>(window: u64, capacity: u64, now: u64, chunk_len: u64)
    ensures
        TransferModel::<P>::fresh(window, capacity, now).wf(),
        TransferModel::<P>::fresh(window, capacity, now).has_credit(chunk_len),
        TransferModel::<P>::fresh(window, capacity, now).window == window,
        TransferModel::<P>::fresh(window, capacity, now).ring.capacity == capacity,
        TransferModel::<P>::fresh(window, capacity, now).ring.chunks.len() == 0,
        TransferModel::<P>::fresh(window, capacity, now).sent == 0,
        TransferModel::<P>::fresh(window, capacity, now).file == 0,
        TransferModel::<P>::fresh(window, capacity, now).cancelled is None,
        TransferModel::<P>::fresh(window, capacity, now).pending is None,
        TransferModel::<P>::fresh(window, capacity, now).peer is None,
{
}

/// The watchdog looks at least every five seconds, at most once a second, and in
/// between four times within the idle timeout.
pub proof fn the_watchdog_looks_often_enough(idle_timeout: u64)
    ensures
        1_000_000_000 <= scan_interval(idle_timeout) <= 5_000_000_000,
        scan_interval(idle_timeout) > 1_000_000_000 ==> 4 * scan_interval(idle_timeout)
            <= idle_timeout,
        scan_interval(idle_timeout) < 5_000_000_000 ==> idle_timeout < 4 * scan_interval(
            idle_timeout,
        ) + 4,
{
}

/// Replaying from an offset gives every held chunk at or behind it, and no other,
/// in order.
pub proof fn a_replay_skips_nothing(chunks: Seq<ChunkModel>, offset: u64, i: int)
    requires
        contiguous(chunks),
        0 <= i < chunks.len(),
    ensures
        tail_from(chunks, offset).contains(chunks[i]) <== chunks[i].offset >= offset,
        forall|j: int|
            0 <= j < tail_from(chunks, offset).len() ==> (#[trigger] tail_from(
                chunks,
                offset,
            )[j]).offset >= offset,
        forall|j: int, k: int|
            0 <= j <= k < tail_from(chunks, offset).len() ==> (#[trigger] tail_from(
                chunks,
                offset,
            )[j]).offset <= (#[trigger] tail_from(chunks, offset)[k]).offset,
{
    let k = tail_is_a_suffix(chunks, offset);
    let tail = tail_from(chunks, offset);
    if chunks[i].offset >= offset {
        assert(i >= k);
        assert(tail[i - k] == chunks[i]);
    }
    assert forall|a: int, b: int| 0 <= a <= b < tail.len() implies (#[trigger] tail[a]).offset
        <= (#[trigger] tail[b]).offset by {
        assert(tail[a] == chunks[k + a] && tail[b] == chunks[k + b]);
        contiguous_offsets_grow(chunks, k + a, k + b);
    }
    assert forall|j: int| 0 <= j < tail.len() implies (#[trigger] tail[j]).offset >= offset by {
        assert(tail[j] == chunks[k + j]);
    }
}

/// A resume that is accepted is answered with the offset that was asked for, and
/// one that is turned down with the reason; then nothing changes.
pub proof fn a_resume_is_answered_as_it_was_taken<P>(
    m: TransferModel<P>,
    peer: P,
    file_index: u32,
    offset: u64,
    now: u64,
)
    ensures
        m.resume_answer(file_index, offset) is Ok ==> m.resume_answer(file_index, offset) == Ok::<
            u64,
            ResumeRejection,
        >(offset) && m.after_resume(peer, file_index, offset, now).pending == Some(
            PendingResume { resume_at_offset: offset },
        ) && m.after_resume(peer, file_index, offset, now).peer == Some(peer),
        m.resume_answer(file_index, offset) is Err ==> m.after_resume(
            peer,
            file_index,
            offset,
            now,
        ) == m,
        m.resume_answer(file_index, offset) is Err <==> m.resume_fault(file_index, offset) is Some,
        m.resume_fault(file_index, offset) matches Some(e) ==> m.resume_answer(file_index, offset)
            == Err::<u64, ResumeRejection>(e),
{
}

/// The watchdog cancels a transfer exactly where it has made no progress for the
/// whole timeout, says that it was idle, and has the producer woken; a transfer
/// that is cancelled already it leaves alone.
pub proof fn the_watchdog_cancels_what_is_idle<P>(m: TransferModel<P>, now: u64, idle_timeout: u64)
    requires
        m.last_chunk <= now,
        m.last_ack <= now,
    ensures
        ({
            let watch = TransferOp::<P>::Watch { now, idle_timeout };
            let idle = now - m.last_chunk >= idle_timeout && now - m.last_ack >= idle_timeout;
            &&& watch.wakes(m) <==> m.cancelled is None && idle
            &&& watch.apply(m) == if m.cancelled is None && idle {
                TransferModel { cancelled: Some("transfer idle"@), ..m }
            } else {
                m
            }
        }),
{
}

/// A producer is woken by what can release it: an acknowledgement that frees
/// something, a resume that is accepted, a cancellation that takes effect, and
/// another file. Nothing else wakes it.
pub proof fn only_what_releases_a_producer_wakes_it<P>(m: TransferModel<P>, op: TransferOp<P>)
    requires
        m.wf(),
    ensures
        op is Ack ==> (op.wakes(m) <==> op.apply(m).acked > m.acked),
        op is Resume ==> (op.wakes(m) <==> op.apply(m).pending is Some && m.resume_fault(
            op->Resume_file_index,
            op->Resume_offset,
        ) is None),
        op is Cancel ==> (op.wakes(m) <==> m.cancelled is None),
        op is Advance ==> op.wakes(m),
        op is SetPeer || op is Push || op is Sent || op is TakeResume ==> !op.wakes(m),
{
}

} // verus!
