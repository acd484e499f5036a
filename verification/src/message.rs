//! Messages and their frames.
//!
//! A frame is a fixed header, the query bytes and the body bytes, in that
//! order. [`parse_frame`] and [`frame_bytes`] say what a frame means.

use crate::codec;
use crate::codec::{parse_json, write_beve, write_json};
use crate::constants::{
    BodyFormat, ErrorCode, QueryFormat, HEADER_SIZE, REPE_SPEC, REPE_VERSION,
};
use crate::error::{ErrorModel, RepeError};
use crate::text::utf8_text;
use crate::wire;
use crate::wire::{push_le, read_le};
use serde_json::Value;
use vstd::prelude::*;

verus! {

/// The fixed header that opens every frame.
#[derive(Debug, Clone, Copy, PartialEq, Eq, Structural)]
pub struct Header {
    /// Size of the whole frame in bytes.
    pub length: u64,
    /// Must be [`REPE_SPEC`].
    pub magic: u16,
    pub version: u8,
    /// 1 for a notify, which gets no response.
    pub notify: u8,
    /// Must be zero.
    pub reserved: u32,
    pub id: u64,
    pub query_length: u64,
    pub body_length: u64,
    pub query_format: u16,
    pub body_format: u16,
    pub ec: u32,
}

/// The bytes of a header.
pub open spec fn header_bytes(h: Header) -> Seq<u8> {
    wire::le_bytes(h.length as nat, 8) + wire::le_bytes(h.magic as nat, 2) + wire::le_bytes(
        h.version as nat,
        1,
    ) + wire::le_bytes(h.notify as nat, 1) + wire::le_bytes(h.reserved as nat, 4) + wire::le_bytes(
        h.id as nat,
        8,
    ) + wire::le_bytes(h.query_length as nat, 8) + wire::le_bytes(h.body_length as nat, 8)
        + wire::le_bytes(h.query_format as nat, 2) + wire::le_bytes(h.body_format as nat, 2)
        + wire::le_bytes(h.ec as nat, 4)
}

/// The header that the first bytes of `b` spell out, valid or not.
pub open spec fn header_of(b: Seq<u8>) -> Header {
    Header {
        length: wire::le_value(b.subrange(0, 8)) as u64,
        magic: wire::le_value(b.subrange(8, 10)) as u16,
        version: wire::le_value(b.subrange(10, 11)) as u8,
        notify: wire::le_value(b.subrange(11, 12)) as u8,
        reserved: wire::le_value(b.subrange(12, 16)) as u32,
        id: wire::le_value(b.subrange(16, 24)) as u64,
        query_length: wire::le_value(b.subrange(24, 32)) as u64,
        body_length: wire::le_value(b.subrange(32, 40)) as u64,
        query_format: wire::le_value(b.subrange(40, 42)) as u16,
        body_format: wire::le_value(b.subrange(42, 44)) as u16,
        ec: wire::le_value(b.subrange(44, 48)) as u32,
    }
}

/// Size of the frame that a query and a body of the given sizes make, capped
/// at what the length field holds.
pub open spec fn frame_length(query_length: nat, body_length: nat) -> u64 {
    if HEADER_SIZE + query_length + body_length <= u64::MAX {
        (HEADER_SIZE + query_length + body_length) as u64
    } else {
        u64::MAX
    }
}

/// `header` with its length fields set for a query and a body of the given
/// sizes.
pub open spec fn stamped(header: Header, query_length: nat, body_length: nat) -> Header {
    Header {
        length: frame_length(query_length, body_length),
        query_length: query_length as u64,
        body_length: body_length as u64,
        ..header
    }
}

/// What a decoded header must satisfy: the first violated rule, if any.
pub open spec fn header_fault(h: Header) -> Option<ErrorModel> {
    if h.magic != REPE_SPEC {
        Some(ErrorModel::InvalidSpec(h.magic))
    } else if h.reserved != 0 {
        Some(ErrorModel::ReservedNonZero)
    } else if h.length != HEADER_SIZE + h.query_length + h.body_length {
        Some(
            ErrorModel::LengthMismatch {
                expected: frame_length(h.query_length as nat, h.body_length as nat),
                got: h.length,
            },
        )
    } else {
        None
    }
}

/// Decodes and validates a header.
pub open spec fn parse_header(b: Seq<u8>) -> Result<Header, ErrorModel> {
    if b.len() < HEADER_SIZE {
        Err(ErrorModel::InvalidHeaderLength(b.len()))
    } else {
        match header_fault(header_of(b)) {
            Some(e) => Err(e),
            None => Ok(header_of(b)),
        }
    }
}

/// A message: a header, the query and the body.
#[verifier::ext_equal]
pub struct MessageModel {
    pub header: Header,
    pub query: Seq<u8>,
    pub body: Seq<u8>,
}

impl MessageModel {
    /// The message with its length fields set from its query and body.
    pub open spec fn stamped(self) -> MessageModel {
        MessageModel {
            header: stamped(self.header, self.query.len(), self.body.len()),
            query: self.query,
            body: self.body,
        }
    }
}

/// The frame of a message with the given query and body: `header` with its
/// length fields set, the query, the body.
pub open spec fn frame_bytes(header: Header, query: Seq<u8>, body: Seq<u8>) -> Seq<u8> {
    header_bytes(stamped(header, query.len(), body.len())) + query + body
}

/// Reads the frame at the start of `b`; bytes behind it are left alone.
pub open spec fn parse_frame(b: Seq<u8>) -> Result<MessageModel, ErrorModel> {
    match parse_header(b) {
        Err(e) => Err(e),
        Ok(h) => if b.len() < h.length {
            Err(ErrorModel::BufferTooSmall { need: h.length, have: b.len() as u64 })
        } else {
            Ok(
                MessageModel {
                    header: h,
                    query: b.subrange(HEADER_SIZE as int, HEADER_SIZE + h.query_length),
                    body: b.subrange(HEADER_SIZE + h.query_length, h.length as int),
                },
            )
        },
    }
}

/// Reads a buffer that must hold one frame and nothing else.
pub open spec fn parse_exact(b: Seq<u8>) -> Result<MessageModel, ErrorModel> {
    match parse_frame(b) {
        Err(e) => Err(e),
        Ok(m) => if b.len() == m.header.length {
            Ok(m)
        } else {
            Err(ErrorModel::LengthMismatch { expected: m.header.length, got: b.len() as u64 })
        },
    }
}

/// A header is read back from its bytes, whatever follows them.
pub proof fn header_round_trip(h: Header, rest: Seq<u8>)
    ensures
        header_bytes(h).len() == HEADER_SIZE,
        header_of(header_bytes(h) + rest) == h,
{
    wire::le_bounds();
    wire::le_bytes_len(h.length as nat, 8);
    wire::le_bytes_len(h.magic as nat, 2);
    wire::le_bytes_len(h.version as nat, 1);
    wire::le_bytes_len(h.notify as nat, 1);
    wire::le_bytes_len(h.reserved as nat, 4);
    wire::le_bytes_len(h.id as nat, 8);
    wire::le_bytes_len(h.query_length as nat, 8);
    wire::le_bytes_len(h.body_length as nat, 8);
    wire::le_bytes_len(h.query_format as nat, 2);
    wire::le_bytes_len(h.body_format as nat, 2);
    wire::le_bytes_len(h.ec as nat, 4);
    wire::le_value_of_bytes(h.length as nat, 8);
    wire::le_value_of_bytes(h.magic as nat, 2);
    wire::le_value_of_bytes(h.version as nat, 1);
    wire::le_value_of_bytes(h.notify as nat, 1);
    wire::le_value_of_bytes(h.reserved as nat, 4);
    wire::le_value_of_bytes(h.id as nat, 8);
    wire::le_value_of_bytes(h.query_length as nat, 8);
    wire::le_value_of_bytes(h.body_length as nat, 8);
    wire::le_value_of_bytes(h.query_format as nat, 2);
    wire::le_value_of_bytes(h.body_format as nat, 2);
    wire::le_value_of_bytes(h.ec as nat, 4);
    let b = header_bytes(h) + rest;
    assert(b.subrange(0, 8) =~= wire::le_bytes(h.length as nat, 8));
    assert(b.subrange(8, 10) =~= wire::le_bytes(h.magic as nat, 2));
    assert(b.subrange(10, 11) =~= wire::le_bytes(h.version as nat, 1));
    assert(b.subrange(11, 12) =~= wire::le_bytes(h.notify as nat, 1));
    assert(b.subrange(12, 16) =~= wire::le_bytes(h.reserved as nat, 4));
    assert(b.subrange(16, 24) =~= wire::le_bytes(h.id as nat, 8));
    assert(b.subrange(24, 32) =~= wire::le_bytes(h.query_length as nat, 8));
    assert(b.subrange(32, 40) =~= wire::le_bytes(h.body_length as nat, 8));
    assert(b.subrange(40, 42) =~= wire::le_bytes(h.query_format as nat, 2));
    assert(b.subrange(42, 44) =~= wire::le_bytes(h.body_format as nat, 2));
    assert(b.subrange(44, 48) =~= wire::le_bytes(h.ec as nat, 4));
}

/// What is written is read back: a frame, with anything behind it, parses as
/// the message it was made of, and it parses exactly when nothing follows.
pub proof fn frame_round_trip(header: Header, query: Seq<u8>, body: Seq<u8>, rest: Seq<u8>)
    requires
        header.magic == REPE_SPEC,
        header.reserved == 0,
        HEADER_SIZE + query.len() + body.len() <= u64::MAX,
    ensures
        frame_bytes(header, query, body).len() == HEADER_SIZE + query.len() + body.len(),
        parse_frame(frame_bytes(header, query, body) + rest) == Ok::<MessageModel, ErrorModel>(
            (MessageModel { header, query, body }).stamped(),
        ),
        rest.len() == 0 ==> parse_exact(frame_bytes(header, query, body) + rest) == Ok::<
            MessageModel,
            ErrorModel,
        >((MessageModel { header, query, body }).stamped()),
{
    let h = stamped(header, query.len(), body.len());
    let b = frame_bytes(header, query, body) + rest;
    header_round_trip(h, query + body + rest);
    assert(b =~= header_bytes(h) + (query + body + rest));
    assert(b.subrange(HEADER_SIZE as int, HEADER_SIZE + h.query_length) =~= query);
    assert(b.subrange(HEADER_SIZE + h.query_length, h.length as int) =~= body);
}

/// A frame that is read is the one that its message is written as: nothing is
/// lost between the bytes and the message.
pub proof fn parsed_frame_is_rewritten(b: Seq<u8>)
    ensures
        parse_exact(b) matches Ok(m) ==> frame_bytes(m.header, m.query, m.body) == b,
{
    if let Ok(m) = parse_exact(b) {
        let h = m.header;
        wire::le_bounds();
        wire::le_bytes_of_value(b.subrange(0, 8));
        wire::le_bytes_of_value(b.subrange(8, 10));
        wire::le_bytes_of_value(b.subrange(10, 11));
        wire::le_bytes_of_value(b.subrange(11, 12));
        wire::le_bytes_of_value(b.subrange(12, 16));
        wire::le_bytes_of_value(b.subrange(16, 24));
        wire::le_bytes_of_value(b.subrange(24, 32));
        wire::le_bytes_of_value(b.subrange(32, 40));
        wire::le_bytes_of_value(b.subrange(40, 42));
        wire::le_bytes_of_value(b.subrange(42, 44));
        wire::le_bytes_of_value(b.subrange(44, 48));
        assert(stamped(h, m.query.len(), m.body.len()) == h);
        assert(header_bytes(h) =~= b.subrange(0, 48));
        assert(frame_bytes(h, m.query, m.body) =~= b);
    }
}

/// Size of the frame that a query and a body of the given sizes make.
pub fn frame_size(query_length: usize, body_length: usize) -> (n: u64)
    ensures
        n == frame_length(query_length as nat, body_length as nat),
{
    (HEADER_SIZE as u64).saturating_add(query_length as u64).saturating_add(body_length as u64)
}

impl Header {
    /// The header of a fresh message: this protocol version, no lengths.
    pub open spec fn blank() -> Header {
        Header {
            length: HEADER_SIZE as u64,
            magic: REPE_SPEC,
            version: REPE_VERSION,
            notify: 0,
            reserved: 0,
            id: 0,
            query_length: 0,
            body_length: 0,
            query_format: 0,
            body_format: 0,
            ec: 0,
        }
    }

    pub fn new() -> (h: Header)
        ensures
            h == Header::blank(),
    {
        Header {
            length: HEADER_SIZE as u64,
            magic: REPE_SPEC,
            version: REPE_VERSION,
            notify: 0,
            reserved: 0,
            id: 0,
            query_length: 0,
            body_length: 0,
            query_format: 0,
            body_format: 0,
            ec: 0,
        }
    }

    /// This header with its length fields set for a query and a body of the
    /// given sizes.
    pub fn stamp(&self, query_length: usize, body_length: usize) -> (h: Header)
        ensures
            h == stamped(*self, query_length as nat, body_length as nat),
    {
        let mut h: Header = *self;
        h.length = frame_size(query_length, body_length);
        h.query_length = query_length as u64;
        h.body_length = body_length as u64;
        h
    }

    /// Appends the bytes of this header.
    pub fn encode_into(&self, out: &mut Vec<u8>)
        ensures
            final(out)@ == old(out)@ + header_bytes(*self),
    {
        let ghost start = out@;
        push_le(out, self.length, 8);
        push_le(out, self.magic as u64, 2);
        push_le(out, self.version as u64, 1);
        push_le(out, self.notify as u64, 1);
        push_le(out, self.reserved as u64, 4);
        push_le(out, self.id, 8);
        push_le(out, self.query_length, 8);
        push_le(out, self.body_length, 8);
        push_le(out, self.query_format as u64, 2);
        push_le(out, self.body_format as u64, 2);
        push_le(out, self.ec as u64, 4);
        assert(out@ =~= start + header_bytes(*self));
    }

    /// The bytes of this header.
    pub fn encode(&self) -> (out: Vec<u8>)
        ensures
            out@ == header_bytes(*self),
    {
        let mut out: Vec<u8> = Vec::new();
        self.encode_into(&mut out);
        assert(out@ =~= header_bytes(*self));
        out
    }

    /// Decodes and validates a header. The version is not judged here: a
    /// receiver answers an unknown version, so it has to read the header first.
    pub fn decode(bytes: &[u8]) -> (r: Result<Header, RepeError>)
        ensures
            r matches Ok(h) ==> parse_header(bytes@) == Ok::<Header, ErrorModel>(h),
            r matches Err(e) ==> parse_header(bytes@) == Err::<Header, ErrorModel>(e@),
    {
        if bytes.len() < HEADER_SIZE {
            return Err(RepeError::InvalidHeaderLength(bytes.len()));
        }
        proof {
            wire::le_bounds();
        }
        let h = Header {
            length: read_le(bytes, 0, 8),
            magic: read_le(bytes, 8, 2) as u16,
            version: read_le(bytes, 10, 1) as u8,
            notify: read_le(bytes, 11, 1) as u8,
            reserved: read_le(bytes, 12, 4) as u32,
            id: read_le(bytes, 16, 8),
            query_length: read_le(bytes, 24, 8),
            body_length: read_le(bytes, 32, 8),
            query_format: read_le(bytes, 40, 2) as u16,
            body_format: read_le(bytes, 42, 2) as u16,
            ec: read_le(bytes, 44, 4) as u32,
        };
        assert(h == header_of(bytes@));
        if h.magic != REPE_SPEC {
            return Err(RepeError::InvalidSpec(h.magic));
        }
        if h.reserved != 0 {
            return Err(RepeError::ReservedNonZero);
        }
        let expected: u64 = (HEADER_SIZE as u64).saturating_add(h.query_length).saturating_add(
            h.body_length,
        );
        let overflows: bool = h.query_length > u64::MAX - HEADER_SIZE as u64 || h.body_length
            > u64::MAX - HEADER_SIZE as u64 - h.query_length;
        if overflows || h.length != expected {
            return Err(RepeError::LengthMismatch { expected, got: h.length });
        }
        Ok(h)
    }
}

/// Copies a byte slice.
pub fn copy_bytes(bytes: &[u8]) -> (v: Vec<u8>)
    ensures
        v@ == bytes@,
{
    let mut v: Vec<u8> = Vec::new();
    v.extend_from_slice(bytes);
    assert(v@ =~= bytes@);
    v
}

/// An owned message.
#[derive(Debug, Clone)]
pub struct Message {
    pub header: Header,
    pub query: Vec<u8>,
    pub body: Vec<u8>,
}

impl View for Message {
    type V = MessageModel;

    open spec fn view(&self) -> MessageModel {
        MessageModel { header: self.header, query: self.query@, body: self.body@ }
    }
}

/// A message whose query and body are borrowed from a receive buffer.
pub struct MessageView<'a> {
    pub header: Header,
    pub query: &'a [u8],
    pub body: &'a [u8],
}

impl<'a> View for MessageView<'a> {
    type V = MessageModel;

    open spec fn view(&self) -> MessageModel {
        MessageModel { header: self.header, query: self.query@, body: self.body@ }
    }
}

impl<'a> MessageView<'a> {
    /// Reads the frame at the start of `bytes`; bytes behind it are ignored.
    pub fn from_slice(bytes: &'a [u8]) -> (r: Result<MessageView<'a>, RepeError>)
        ensures
            r matches Ok(m) ==> parse_frame(bytes@) == Ok::<MessageModel, ErrorModel>(m@),
            r matches Err(e) ==> parse_frame(bytes@) == Err::<MessageModel, ErrorModel>(e@),
    {
        let h: Header = match Header::decode(bytes) {
            Ok(h) => h,
            Err(e) => return Err(e),
        };
        let have: usize = bytes.len();
        if (have as u64) < h.length {
            return Err(RepeError::BufferTooSmall { need: h.length, have: have as u64 });
        }
        let query_end: usize = HEADER_SIZE + h.query_length as usize;
        let body_end: usize = query_end + h.body_length as usize;
        let query = vstd::slice::slice_subrange(bytes, HEADER_SIZE, query_end);
        let body = vstd::slice::slice_subrange(bytes, query_end, body_end);
        Ok(MessageView { header: h, query, body })
    }

    /// Reads a buffer that must hold one frame and nothing else.
    pub fn from_slice_exact(bytes: &'a [u8]) -> (r: Result<MessageView<'a>, RepeError>)
        ensures
            r matches Ok(m) ==> parse_exact(bytes@) == Ok::<MessageModel, ErrorModel>(m@),
            r matches Err(e) ==> parse_exact(bytes@) == Err::<MessageModel, ErrorModel>(e@),
    {
        let m = match MessageView::from_slice(bytes) {
            Ok(m) => m,
            Err(e) => return Err(e),
        };
        if bytes.len() as u64 != m.header.length {
            return Err(
                RepeError::LengthMismatch { expected: m.header.length, got: bytes.len() as u64 },
            );
        }
        Ok(m)
    }

    /// An owned copy of this message.
    pub fn to_message(&self) -> (m: Message)
        ensures
            m@ == self@,
    {
        Message {
            header: self.header,
            query: copy_bytes(self.query),
            body: copy_bytes(self.body),
        }
    }
}

/// Appends the frame of `header`, `query` and `body`.
pub fn write_frame(out: &mut Vec<u8>, header: &Header, query: &[u8], body: &[u8])
    ensures
        final(out)@ == old(out)@ + frame_bytes(*header, query@, body@),
{
    let ghost start = out@;
    header.stamp(query.len(), body.len()).encode_into(out);
    let ghost with_header = out@;
    out.extend_from_slice(query);
    assert(out@ =~= with_header + query@);
    out.extend_from_slice(body);
    assert(out@ =~= start + frame_bytes(*header, query@, body@));
}

impl Message {
    /// Starts building a message.
    pub fn builder() -> (b: MessageBuilder)
        ensures
            b@ == (MessageModel {
                header: Header::blank(),
                query: Seq::empty(),
                body: Seq::empty(),
            }),
    {
        MessageBuilder { header: Header::new(), query: Vec::new(), body: Vec::new() }
    }

    /// The frame of this message.
    pub fn to_vec(&self) -> (out: Vec<u8>)
        ensures
            out@ == frame_bytes(self.header, self.query@, self.body@),
    {
        let mut out: Vec<u8> = Vec::new();
        write_frame(&mut out, &self.header, self.query.as_slice(), self.body.as_slice());
        assert(out@ =~= frame_bytes(self.header, self.query@, self.body@));
        out
    }

    /// Appends the frame of this message.
    pub fn write_to(&self, out: &mut Vec<u8>)
        ensures
            final(out)@ == old(out)@ + frame_bytes(self.header, self.query@, self.body@),
    {
        write_frame(out, &self.header, self.query.as_slice(), self.body.as_slice());
    }

    /// Reads the frame at the start of `bytes`; bytes behind it are ignored.
    pub fn from_slice(bytes: &[u8]) -> (r: Result<Message, RepeError>)
        ensures
            r matches Ok(m) ==> parse_frame(bytes@) == Ok::<MessageModel, ErrorModel>(m@),
            r matches Err(e) ==> parse_frame(bytes@) == Err::<MessageModel, ErrorModel>(e@),
    {
        match MessageView::from_slice(bytes) {
            Ok(m) => Ok(m.to_message()),
            Err(e) => Err(e),
        }
    }

    /// Reads a buffer that must hold one frame and nothing else.
    pub fn from_slice_exact(bytes: &[u8]) -> (r: Result<Message, RepeError>)
        ensures
            r matches Ok(m) ==> parse_exact(bytes@) == Ok::<MessageModel, ErrorModel>(m@),
            r matches Err(e) ==> parse_exact(bytes@) == Err::<MessageModel, ErrorModel>(e@),
    {
        match MessageView::from_slice_exact(bytes) {
            Ok(m) => Ok(m.to_message()),
            Err(e) => Err(e),
        }
    }

    /// Size of the frame of this message.
    pub fn serialized_len(&self) -> (n: u64)
        ensures
            n == frame_length(self.query@.len(), self.body@.len()),
    {
        frame_size(self.query.len(), self.body.len())
    }

    /// The query as text.
    pub fn query_str(&self) -> (r: Result<&str, RepeError>)
        ensures
            r is Ok == vstd::utf8::valid_utf8(self.query@),
            r matches Ok(s) ==> s@ == vstd::utf8::decode_utf8(self.query@),
            r matches Err(e) ==> e@ == ErrorModel::InvalidUtf8,
    {
        match utf8_text(self.query.as_slice()) {
            Some(s) => Ok(s),
            None => Err(RepeError::InvalidUtf8),
        }
    }

    /// The body parsed as JSON.
    pub fn json_body(&self) -> (r: Result<Value, RepeError>)
        ensures
            r matches Ok(v) ==> codec::json_parsed(self.body@) == Ok::<Value, Seq<char>>(v),
            r matches Err(e) ==> codec::json_parsed(self.body@) is Err && e@ == ErrorModel::Json(
                codec::json_parsed(self.body@)->Err_0,
            ),
    {
        match parse_json(self.body.as_slice()) {
            Ok(v) => Ok(v),
            Err(m) => Err(RepeError::Json(m)),
        }
    }

    /// The error code in the header, if it is a known one.
    pub fn error_code(&self) -> (r: Option<ErrorCode>)
        ensures
            r == ErrorCode::of_wire(self.header.ec),
    {
        ErrorCode::from_code(self.header.ec)
    }

    /// Whether this message reports an error.
    pub fn is_error(&self) -> (r: bool)
        ensures
            r == (self.header.ec != 0),
    {
        self.header.ec != 0
    }

    /// The text of an error response: its body where it is text.
    pub fn error_message_utf8(&self) -> (r: Option<String>)
        ensures
            r is Some == (self.header.ec != 0 && vstd::utf8::valid_utf8(self.body@)),
            r matches Some(s) ==> s@ == vstd::utf8::decode_utf8(self.body@),
    {
        if self.header.ec == 0 {
            return None;
        }
        match utf8_text(self.body.as_slice()) {
            Some(s) => Some(s.to_owned()),
            None => None,
        }
    }
}

/// A message under construction.
pub struct MessageBuilder {
    header: Header,
    query: Vec<u8>,
    body: Vec<u8>,
}

impl View for MessageBuilder {
    type V = MessageModel;

    closed spec fn view(&self) -> MessageModel {
        MessageModel { header: self.header, query: self.query@, body: self.body@ }
    }
}

impl MessageBuilder {
    pub fn id(self, id: u64) -> (b: MessageBuilder)
        ensures
            b@ == (MessageModel { header: Header { id, ..self@.header }, ..self@ }),
    {
        let mut b = self;
        b.header.id = id;
        b
    }

    pub fn notify(self, notify: bool) -> (b: MessageBuilder)
        ensures
            b@ == (MessageModel {
                header: Header {
                    notify: if notify {
                        1
                    } else {
                        0
                    },
                    ..self@.header
                },
                ..self@
            }),
    {
        let mut b = self;
        b.header.notify = if notify {
            1
        } else {
            0
        };
        b
    }

    pub fn query_str(self, query: &str) -> (b: MessageBuilder)
        ensures
            b@ == (MessageModel { query: vstd::utf8::encode_utf8(query@), ..self@ }),
    {
        let mut b = self;
        b.query = copy_bytes(query.as_bytes());
        b
    }

    pub fn query_bytes(self, query: Vec<u8>) -> (b: MessageBuilder)
        ensures
            b@ == (MessageModel { query: query@, ..self@ }),
    {
        let mut b = self;
        b.query = query;
        b
    }

    pub fn query_format(self, format: QueryFormat) -> (b: MessageBuilder)
        ensures
            b@ == (MessageModel {
                header: Header { query_format: format.wire(), ..self@.header },
                ..self@
            }),
    {
        self.query_format_code(format.code())
    }

    pub fn query_format_code(self, code: u16) -> (b: MessageBuilder)
        ensures
            b@ == (MessageModel {
                header: Header { query_format: code, ..self@.header },
                ..self@
            }),
    {
        let mut b = self;
        b.header.query_format = code;
        b
    }

    pub fn body_bytes(self, body: Vec<u8>) -> (b: MessageBuilder)
        ensures
            b@ == (MessageModel { body: body@, ..self@ }),
    {
        let mut b = self;
        b.body = body;
        b
    }

    /// Sets the body to text, and the format that says so.
    pub fn body_utf8(self, text: &str) -> (b: MessageBuilder)
        ensures
            b@ == (MessageModel {
                header: Header { body_format: BodyFormat::Utf8.wire(), ..self@.header },
                body: vstd::utf8::encode_utf8(text@),
                ..self@
            }),
    {
        let mut b = self;
        b.body = copy_bytes(text.as_bytes());
        b.header.body_format = BodyFormat::Utf8.code();
        b
    }

    /// Sets the body to the JSON text of `value`, and the format that says so.
    pub fn body_json(self, value: &Value) -> (r: Result<MessageBuilder, RepeError>)
        ensures
            match codec::json_written(*value) {
                Ok(bytes) => r matches Ok(b) && b@ == (MessageModel {
                    header: Header { body_format: BodyFormat::Json.wire(), ..self@.header },
                    body: bytes,
                    ..self@
                }),
                Err(m) => r matches Err(e) && e@ == ErrorModel::Json(m),
            },
    {
        match write_json(value) {
            Ok(bytes) => {
                let mut b = self;
                b.body = bytes;
                b.header.body_format = BodyFormat::Json.code();
                Ok(b)
            },
            Err(m) => Err(RepeError::Json(m)),
        }
    }

    /// Sets the body to the BEVE bytes of `value`, and the format that says so.
    pub fn body_beve(self, value: &Value) -> (r: Result<MessageBuilder, RepeError>)
        ensures
            match codec::beve_written(*value) {
                Ok(bytes) => r matches Ok(b) && b@ == (MessageModel {
                    header: Header { body_format: BodyFormat::Beve.wire(), ..self@.header },
                    body: bytes,
                    ..self@
                }),
                Err(m) => r matches Err(e) && e@ == ErrorModel::Beve(m),
            },
    {
        match write_beve(value) {
            Ok(bytes) => {
                let mut b = self;
                b.body = bytes;
                b.header.body_format = BodyFormat::Beve.code();
                Ok(b)
            },
            Err(m) => Err(RepeError::Beve(m)),
        }
    }

    pub fn body_format(self, format: BodyFormat) -> (b: MessageBuilder)
        ensures
            b@ == (MessageModel {
                header: Header { body_format: format.wire(), ..self@.header },
                ..self@
            }),
    {
        self.body_format_code(format.code())
    }

    pub fn body_format_code(self, code: u16) -> (b: MessageBuilder)
        ensures
            b@ == (MessageModel { header: Header { body_format: code, ..self@.header }, ..self@ }),
    {
        let mut b = self;
        b.header.body_format = code;
        b
    }

    pub fn error_code(self, code: ErrorCode) -> (b: MessageBuilder)
        ensures
            b@ == (MessageModel { header: Header { ec: code.wire(), ..self@.header }, ..self@ }),
    {
        let mut b = self;
        b.header.ec = code.code();
        b
    }

    /// The message, with its length fields set.
    pub fn build(self) -> (m: Message)
        ensures
            m@ == self@.stamped(),
    {
        let header = self.header.stamp(self.query.len(), self.body.len());
        Message { header, query: self.query, body: self.body }
    }
}

/// The error response to a request with header `req`, before its query is
/// filled in.
pub open spec fn error_reply(req: Header, code: ErrorCode, text: Seq<char>) -> MessageModel {
    MessageModel {
        header: stamped(
            Header {
                id: req.id,
                query_format: req.query_format,
                body_format: BodyFormat::Utf8.wire(),
                ec: code.wire(),
                ..Header::blank()
            },
            0,
            vstd::utf8::encode_utf8(text).len(),
        ),
        query: Seq::empty(),
        body: vstd::utf8::encode_utf8(text),
    }
}

/// The response that carries `body` to a request with header `req`, before its
/// query is filled in.
pub open spec fn body_reply(req: Header, body: Seq<u8>, format: BodyFormat) -> MessageModel {
    MessageModel {
        header: stamped(
            Header {
                id: req.id,
                query_format: req.query_format,
                body_format: format.wire(),
                ..Header::blank()
            },
            0,
            body.len(),
        ),
        query: Seq::empty(),
        body,
    }
}

/// The error response to a request with header `req`. The query is left empty
/// for the dispatch layer to fill in.
pub fn error_response(req: &Header, code: ErrorCode, text: &str) -> (m: Message)
    ensures
        m@ == error_reply(*req, code, text@),
{
    let m = Message::builder().id(req.id).query_format_code(req.query_format).body_utf8(
        text,
    ).error_code(code).build();
    m
}

/// The error response to `req`.
pub fn create_error_response_like(req: &Message, code: ErrorCode, text: &str) -> (m: Message)
    ensures
        m@ == error_reply(req.header, code, text@),
{
    error_response(&req.header, code, text)
}

/// The error message for a request that could not be read: its id is 0.
pub fn create_error_message(code: ErrorCode, text: &str) -> (m: Message)
    ensures
        m@ == error_reply(Header::blank(), code, text@),
{
    error_response(&Header::new(), code, text)
}

/// The response that carries `body` to a request with header `req`. The query
/// is left empty for the dispatch layer to fill in.
pub fn create_body_response_unstamped(req: &Header, body: Vec<u8>, format: BodyFormat) -> (m:
    Message)
    ensures
        m@ == body_reply(*req, body@, format),
{
    Message::builder().id(req.id).query_format_code(req.query_format).body_bytes(body).body_format(
        format,
    ).build()
}

/// How a dynamically typed value is written in each body format: JSON text
/// for JSON, UTF-8 and raw bodies, BEVE bytes for BEVE bodies.
pub open spec fn value_body(value: Value, format: BodyFormat) -> Result<Seq<u8>, ErrorModel> {
    match format {
        BodyFormat::Beve => match codec::beve_written(value) {
            Ok(bytes) => Ok(bytes),
            Err(m) => Err(ErrorModel::Beve(m)),
        },
        _ => match codec::json_written(value) {
            Ok(bytes) => Ok(bytes),
            Err(m) => Err(ErrorModel::Json(m)),
        },
    }
}

/// Writes a dynamically typed value in a body format.
pub fn encode_value(value: &Value, format: BodyFormat) -> (r: Result<Vec<u8>, RepeError>)
    ensures
        match value_body(*value, format) {
            Ok(bytes) => r matches Ok(b) && b@ == bytes,
            Err(m) => r matches Err(e) && e@ == m,
        },
{
    match format {
        BodyFormat::Beve => match write_beve(value) {
            Ok(bytes) => Ok(bytes),
            Err(m) => Err(RepeError::Beve(m)),
        },
        _ => match write_json(value) {
            Ok(bytes) => Ok(bytes),
            Err(m) => Err(RepeError::Json(m)),
        },
    }
}

/// The response that carries `value`, before its query is filled in.
pub open spec fn value_reply(req: Header, value: Value, format: BodyFormat) -> Result<
    MessageModel,
    ErrorModel,
> {
    match value_body(value, format) {
        Ok(bytes) => Ok(body_reply(req, bytes, format)),
        Err(e) => Err(e),
    }
}

/// What an operation that yields a message came to.
pub open spec fn outcome(r: Result<Message, RepeError>) -> Result<MessageModel, ErrorModel> {
    match r {
        Ok(m) => Ok(m@),
        Err(e) => Err(e@),
    }
}

/// The response that carries `value` to a request with header `req`. The query
/// is left empty for the dispatch layer to fill in.
pub fn create_response_unstamped(req: &Header, value: &Value, format: BodyFormat) -> (r: Result<
    Message,
    RepeError,
>)
    ensures
        outcome(r) == value_reply(*req, *value, format),
{
    match encode_value(value, format) {
        Ok(bytes) => Ok(create_body_response_unstamped(req, bytes, format)),
        Err(e) => Err(e),
    }
}

/// The complete response that carries `value` to `req`, with the query of the
/// request echoed.
pub fn create_response(req: &Message, value: &Value, format: BodyFormat) -> (r: Result<
    Message,
    RepeError,
>)
    ensures
        match value_reply(req.header, *value, format) {
            Ok(m) => outcome(r) == Ok::<MessageModel, ErrorModel>(
                (MessageModel { query: req.query@, ..m }).stamped(),
            ),
            Err(e) => outcome(r) == Err::<MessageModel, ErrorModel>(e),
        },
{
    match create_response_unstamped(&req.header, value, format) {
        Ok(m) => {
            let query = copy_bytes(req.query.as_slice());
            let header = m.header.stamp(query.len(), m.body.len());
            Ok(Message { header, query, body: m.body })
        },
        Err(e) => Err(e),
    }
}

/// The frame that answers a request with query `query`: an empty response
/// query is filled with it, a query that the handler set is kept.
pub open spec fn reply_frame(response: MessageModel, query: Seq<u8>) -> Seq<u8> {
    if response.query.len() == 0 {
        frame_bytes(response.header, query, response.body)
    } else {
        frame_bytes(response.header, response.query, response.body)
    }
}

/// Appends the frame that answers a request with query `query`.
pub fn write_view_response(out: &mut Vec<u8>, response: &Message, query: &[u8])
    ensures
        final(out)@ == old(out)@ + reply_frame(response@, query@),
{
    if response.query.len() == 0 {
        write_frame(out, &response.header, query, response.body.as_slice());
    } else {
        response.write_to(out);
    }
}

/// Where each field of a header stands among its bytes.
pub proof fn header_fields_have_their_places(h: Header)
    ensures
        header_bytes(h).len() == 48,
        wire::le_value(header_bytes(h).subrange(0, 8)) == h.length,
        wire::le_value(header_bytes(h).subrange(8, 10)) == h.magic,
        wire::le_value(header_bytes(h).subrange(10, 11)) == h.version,
        wire::le_value(header_bytes(h).subrange(11, 12)) == h.notify,
        wire::le_value(header_bytes(h).subrange(12, 16)) == h.reserved,
        wire::le_value(header_bytes(h).subrange(16, 24)) == h.id,
        wire::le_value(header_bytes(h).subrange(24, 32)) == h.query_length,
        wire::le_value(header_bytes(h).subrange(32, 40)) == h.body_length,
        wire::le_value(header_bytes(h).subrange(40, 42)) == h.query_format,
        wire::le_value(header_bytes(h).subrange(42, 44)) == h.body_format,
        wire::le_value(header_bytes(h).subrange(44, 48)) == h.ec,
{
    wire::le_bounds();
    wire::le_bytes_len(h.length as nat, 8);
    wire::le_bytes_len(h.magic as nat, 2);
    wire::le_bytes_len(h.version as nat, 1);
    wire::le_bytes_len(h.notify as nat, 1);
    wire::le_bytes_len(h.reserved as nat, 4);
    wire::le_bytes_len(h.id as nat, 8);
    wire::le_bytes_len(h.query_length as nat, 8);
    wire::le_bytes_len(h.body_length as nat, 8);
    wire::le_bytes_len(h.query_format as nat, 2);
    wire::le_bytes_len(h.body_format as nat, 2);
    wire::le_bytes_len(h.ec as nat, 4);
    wire::le_value_of_bytes(h.length as nat, 8);
    wire::le_value_of_bytes(h.magic as nat, 2);
    wire::le_value_of_bytes(h.version as nat, 1);
    wire::le_value_of_bytes(h.notify as nat, 1);
    wire::le_value_of_bytes(h.reserved as nat, 4);
    wire::le_value_of_bytes(h.id as nat, 8);
    wire::le_value_of_bytes(h.query_length as nat, 8);
    wire::le_value_of_bytes(h.body_length as nat, 8);
    wire::le_value_of_bytes(h.query_format as nat, 2);
    wire::le_value_of_bytes(h.body_format as nat, 2);
    wire::le_value_of_bytes(h.ec as nat, 4);
    let b = header_bytes(h);
    assert(b.subrange(0, 8) =~= wire::le_bytes(h.length as nat, 8));
    assert(b.subrange(8, 10) =~= wire::le_bytes(h.magic as nat, 2));
    assert(b.subrange(10, 11) =~= wire::le_bytes(h.version as nat, 1));
    assert(b.subrange(11, 12) =~= wire::le_bytes(h.notify as nat, 1));
    assert(b.subrange(12, 16) =~= wire::le_bytes(h.reserved as nat, 4));
    assert(b.subrange(16, 24) =~= wire::le_bytes(h.id as nat, 8));
    assert(b.subrange(24, 32) =~= wire::le_bytes(h.query_length as nat, 8));
    assert(b.subrange(32, 40) =~= wire::le_bytes(h.body_length as nat, 8));
    assert(b.subrange(40, 42) =~= wire::le_bytes(h.query_format as nat, 2));
    assert(b.subrange(42, 44) =~= wire::le_bytes(h.body_format as nat, 2));
    assert(b.subrange(44, 48) =~= wire::le_bytes(h.ec as nat, 4));
}

/// A buffer is read as a frame exactly where it holds one: the magic number, a
/// reserved field of zero, lengths that add up, and all the bytes that they
/// promise. The version and the error code do not matter: a frame that reports
/// an error is read like any other.
pub proof fn only_sound_frames_are_read(b: Seq<u8>)
    ensures
        parse_frame(b) is Ok <==> {
            &&& b.len() >= 48
            &&& header_of(b).magic == 0x1507
            &&& header_of(b).reserved == 0
            &&& header_of(b).length == 48 + header_of(b).query_length + header_of(b).body_length
            &&& b.len() >= header_of(b).length
        },
        parse_exact(b) is Ok <==> parse_frame(b) is Ok && b.len() == header_of(b).length,
        parse_frame(b) matches Ok(m) ==> {
            &&& m.header == header_of(b)
            &&& m.query.len() == m.header.query_length
            &&& m.body.len() == m.header.body_length
            &&& b.subrange(48, m.header.length as int) == m.query + m.body
        },
        parse_exact(b) matches Ok(m) ==> parse_frame(b) == Ok::<MessageModel, ErrorModel>(m),
        b.len() < 48 ==> parse_frame(b) == Err::<MessageModel, ErrorModel>(
            ErrorModel::InvalidHeaderLength(b.len()),
        ),
{
    if let Ok(m) = parse_frame(b) {
        assert(b.subrange(48, m.header.length as int) =~= m.query + m.body);
    }
}

/// The numbers in a header are read from their bytes.
pub proof fn a_header_is_read_from_its_bytes(b: Seq<u8>)
    requires
        b.len() >= 48,
    ensures
        header_bytes(header_of(b)) == b.subrange(0, 48),
{
    let h = header_of(b);
    wire::le_bounds();
    wire::le_bytes_of_value(b.subrange(0, 8));
    wire::le_bytes_of_value(b.subrange(8, 10));
    wire::le_bytes_of_value(b.subrange(10, 11));
    wire::le_bytes_of_value(b.subrange(11, 12));
    wire::le_bytes_of_value(b.subrange(12, 16));
    wire::le_bytes_of_value(b.subrange(16, 24));
    wire::le_bytes_of_value(b.subrange(24, 32));
    wire::le_bytes_of_value(b.subrange(32, 40));
    wire::le_bytes_of_value(b.subrange(40, 42));
    wire::le_bytes_of_value(b.subrange(42, 44));
    wire::le_bytes_of_value(b.subrange(44, 48));
    assert(header_bytes(h) =~= b.subrange(0, 48));
}

/// A frame is its header, its query and its body, and its header says how long
/// each is; nothing else of the header changes.
pub proof fn a_frame_is_header_query_and_body(header: Header, query: Seq<u8>, body: Seq<u8>)
    requires
        48 + query.len() + body.len() <= u64::MAX,
    ensures
        frame_bytes(header, query, body).len() == 48 + query.len() + body.len(),
        frame_bytes(header, query, body).subrange(48, 48int + query.len()) == query,
        frame_bytes(header, query, body).subrange(
            48int + query.len(),
            48int + query.len() + body.len(),
        ) == body,
        header_of(frame_bytes(header, query, body)) == (Header {
            length: (48 + query.len() + body.len()) as u64,
            query_length: query.len() as u64,
            body_length: body.len() as u64,
            ..header
        }),
{
    let h = stamped(header, query.len(), body.len());
    header_round_trip(h, query + body);
    let b = frame_bytes(header, query, body);
    assert(b =~= header_bytes(h) + (query + body));
    assert(b.subrange(48, 48int + query.len()) =~= query);
    assert(b.subrange(48int + query.len(), 48int + query.len() + body.len()) =~= body);
}

/// A reply goes back to its request: it carries the id and the query format of
/// the request, is no notify, and holds what was to be said, with a code where
/// it is an error and none where it is not.
pub proof fn a_reply_belongs_to_its_request(
    req: Header,
    code: ErrorCode,
    text: Seq<char>,
    body: Seq<u8>,
    format: BodyFormat,
)
    ensures
        error_reply(req, code, text).header.id == req.id,
        error_reply(req, code, text).header.query_format == req.query_format,
        error_reply(req, code, text).header.notify == 0,
        error_reply(req, code, text).header.version == 1,
        error_reply(req, code, text).header.magic == 0x1507,
        error_reply(req, code, text).header.reserved == 0,
        error_reply(req, code, text).header.ec == code.wire(),
        error_reply(req, code, text).header.body_format == 3,
        vstd::utf8::decode_utf8(error_reply(req, code, text).body) == text,
        error_reply(req, code, text).query.len() == 0,
        body_reply(req, body, format).header.id == req.id,
        body_reply(req, body, format).header.query_format == req.query_format,
        body_reply(req, body, format).header.notify == 0,
        body_reply(req, body, format).header.version == 1,
        body_reply(req, body, format).header.magic == 0x1507,
        body_reply(req, body, format).header.reserved == 0,
        body_reply(req, body, format).header.ec == 0,
        body_reply(req, body, format).header.body_format == format.wire(),
        body_reply(req, body, format).body == body,
        body_reply(req, body, format).query.len() == 0,
{
    vstd::utf8::encode_utf8_decode_utf8(text);
}

/// A value is written by the codec of its format, and a reply that carries it
/// holds what the codec wrote.
pub proof fn a_value_is_written_in_its_format(req: Header, value: Value, format: BodyFormat)
    ensures
        format == BodyFormat::Beve ==> value_body(value, format) == match codec::beve_written(
            value,
        ) {
            Ok(bytes) => Ok::<Seq<u8>, ErrorModel>(bytes),
            Err(m) => Err(ErrorModel::Beve(m)),
        },
        format != BodyFormat::Beve ==> value_body(value, format) == match codec::json_written(
            value,
        ) {
            Ok(bytes) => Ok::<Seq<u8>, ErrorModel>(bytes),
            Err(m) => Err(ErrorModel::Json(m)),
        },
        value_reply(req, value, format) is Ok <==> value_body(value, format) is Ok,
        value_reply(req, value, format) matches Ok(m) ==> {
            &&& value_body(value, format) == Ok::<Seq<u8>, ErrorModel>(m.body)
            &&& m.header.id == req.id
            &&& m.header.ec == 0
            &&& m.header.body_format == format.wire()
        },
        value_reply(req, value, format) matches Err(e) ==> value_body(value, format) == Err::<
            Seq<u8>,
            ErrorModel,
        >(e),
{
}

/// What answers a request can be read by the one who asked: the id, the code and
/// the body are those of the response, and the query is the handler's, or that
/// of the request where the handler set none.
pub proof fn an_answer_can_be_read(response: MessageModel, query: Seq<u8>)
    requires
        response.header.magic == 0x1507,
        response.header.reserved == 0,
        48 + query.len() + response.body.len() <= u64::MAX,
        48 + response.query.len() + response.body.len() <= u64::MAX,
    ensures
        parse_exact(reply_frame(response, query)) matches Ok(m) && {
            &&& m.header.id == response.header.id
            &&& m.header.ec == response.header.ec
            &&& m.header.notify == response.header.notify
            &&& m.header.version == response.header.version
            &&& m.header.query_format == response.header.query_format
            &&& m.header.body_format == response.header.body_format
            &&& m.body == response.body
            &&& response.query.len() == 0 ==> m.query == query
            &&& response.query.len() > 0 ==> m.query == response.query
        },
{
    let b = reply_frame(response, query);
    assert(b + Seq::<u8>::empty() =~= b);
    if response.query.len() == 0 {
        frame_round_trip(response.header, query, response.body, Seq::empty());
    } else {
        frame_round_trip(response.header, response.query, response.body, Seq::empty());
    }
}

/// A buffer that is no frame is refused for the first thing that is wrong with it:
/// too short for a header, another magic number, a reserved field in use, lengths
/// that do not add up, or bytes that are missing; and a buffer that has to hold one
/// frame is refused for bytes behind it.
pub proof fn a_frame_is_refused_for_what_is_wrong_with_it(b: Seq<u8>)
    requires
        48 <= b.len() <= u64::MAX,
    ensures
        header_of(b).magic != 0x1507 ==> parse_frame(b) == Err::<MessageModel, ErrorModel>(
            ErrorModel::InvalidSpec(header_of(b).magic),
        ),
        header_of(b).magic == 0x1507 && header_of(b).reserved != 0 ==> parse_frame(b) == Err::<
            MessageModel,
            ErrorModel,
        >(ErrorModel::ReservedNonZero),
        header_of(b).magic == 0x1507 && header_of(b).reserved == 0 && header_of(b).length != 48
            + header_of(b).query_length + header_of(b).body_length ==> (parse_frame(b) matches Err(
            ErrorModel::LengthMismatch { expected, got },
        ) && got == header_of(b).length),
        parse_header(b) is Ok && b.len() < header_of(b).length ==> parse_frame(b) == Err::<
            MessageModel,
            ErrorModel,
        >(ErrorModel::BufferTooSmall { need: header_of(b).length, have: b.len() as u64 }),
        parse_frame(b) is Ok && b.len() > header_of(b).length ==> parse_exact(b) == Err::<
            MessageModel,
            ErrorModel,
        >(ErrorModel::LengthMismatch { expected: header_of(b).length, got: b.len() as u64 }),
        parse_frame(b) matches Err(e) ==> parse_exact(b) == Err::<MessageModel, ErrorModel>(e),
{
}

} // verus!
