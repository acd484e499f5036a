//! Sending messages over UniUDP.
//!
//! The socket is the embedder's. Here stands what a client is configured with,
//! which ids its messages carry, and what each of them holds.

use crate::constants::{BodyFormat, QueryFormat};
use crate::error::{ErrorModel, IoKind, RepeError};
use crate::message;
use crate::message::encode_value;
use crate::text::concat2;
use crate::websocket_client;
use crate::websocket_client::message_with_formats;
use crate::websocket_server;
use serde_json::Value;
use uniudp::fec::FecMode;
use uniudp::options::SendOptions;
use vstd::prelude::*;

verus! {

/// The most data shards of a forward error correction group.
pub const MAX_FEC_GROUP_SIZE: u8 = 64;

/// The most parity shards of a forward error correction group.
pub const MAX_PARITY_SHARDS: u8 = 16;

/// How a client sends.
#[derive(Debug, Clone, Copy, PartialEq, Eq, Structural)]
pub struct UdpSettings {
    pub redundancy: u16,
    pub chunk_size: u16,
    pub fec_group_size: u8,
    pub parity_shards: u8,
}

/// What is wrong with the settings of a client, the first thing first.
pub open spec fn settings_fault(
    redundancy: nat,
    chunk_size: nat,
    fec_group_size: nat,
    parity_shards: nat,
) -> Option<Seq<char>> {
    if redundancy > u16::MAX {
        Some("redundancy exceeds u16::MAX"@)
    } else if chunk_size > u16::MAX {
        Some("chunk_size exceeds u16::MAX"@)
    } else if fec_group_size > u8::MAX {
        Some("fec_group_size exceeds u8::MAX"@)
    } else if fec_group_size > MAX_FEC_GROUP_SIZE {
        Some("fec_group_size exceeds UniUDP RS maximum (64)"@)
    } else if parity_shards > u8::MAX {
        Some("parity_shards exceeds u8::MAX"@)
    } else if parity_shards == 0 || parity_shards > MAX_PARITY_SHARDS {
        Some("parity_shards must be between 1 and 16 for UniUDP RS FEC"@)
    } else {
        None
    }
}

/// An error for something that the caller asked for.
pub open spec fn invalid_input(text: Seq<char>) -> ErrorModel {
    ErrorModel::Io { kind: IoKind::InvalidInput, message: text }
}

/// Checks the settings of a client.
pub fn check_settings(
    redundancy: usize,
    chunk_size: usize,
    fec_group_size: usize,
    parity_shards: usize,
) -> (r: Result<UdpSettings, RepeError>)
    ensures
        match settings_fault(
            redundancy as nat,
            chunk_size as nat,
            fec_group_size as nat,
            parity_shards as nat,
        ) {
            Some(text) => r matches Err(e) && e@ == invalid_input(text),
            None => r matches Ok(s) && s.redundancy == redundancy && s.chunk_size == chunk_size
                && s.fec_group_size == fec_group_size && s.parity_shards == parity_shards,
        },
{
    if redundancy > u16::MAX as usize {
        return Err(RepeError::io(IoKind::InvalidInput, "redundancy exceeds u16::MAX"));
    }
    if chunk_size > u16::MAX as usize {
        return Err(RepeError::io(IoKind::InvalidInput, "chunk_size exceeds u16::MAX"));
    }
    if fec_group_size > u8::MAX as usize {
        return Err(RepeError::io(IoKind::InvalidInput, "fec_group_size exceeds u8::MAX"));
    }
    if fec_group_size > MAX_FEC_GROUP_SIZE as usize {
        return Err(
            RepeError::io(
                IoKind::InvalidInput,
                "fec_group_size exceeds UniUDP RS maximum (64)",
            ),
        );
    }
    if parity_shards > u8::MAX as usize {
        return Err(RepeError::io(IoKind::InvalidInput, "parity_shards exceeds u8::MAX"));
    }
    if parity_shards == 0 || parity_shards > MAX_PARITY_SHARDS as usize {
        return Err(
            RepeError::io(
                IoKind::InvalidInput,
                "parity_shards must be between 1 and 16 for UniUDP RS FEC",
            ),
        );
    }
    Ok(
        UdpSettings {
            redundancy: redundancy as u16,
            chunk_size: chunk_size as u16,
            fec_group_size: fec_group_size as u8,
            parity_shards: parity_shards as u8,
        },
    )
}

/// The address that a socket is bound to in order to reach a destination.
pub fn bind_address(ipv4: bool) -> (s: &'static str)
    ensures
        s@ == if ipv4 {
            "0.0.0.0:0"@
        } else {
            "[::]:0"@
        },
{
    if ipv4 {
        "0.0.0.0:0"
    } else {
        "[::]:0"
    }
}

/// The destination of a client: the first address that its target resolved to.
pub fn resolve_destination<A>(first: Option<A>) -> (r: Result<A, RepeError>)
    ensures
        match first {
            Some(a) => r == Ok::<A, RepeError>(a),
            None => r matches Err(e) && e@ == invalid_input(
                "target resolved to no socket addresses"@,
            ),
        },
{
    match first {
        Some(a) => Ok(a),
        None => Err(
            RepeError::io(IoKind::InvalidInput, "target resolved to no socket addresses"),
        ),
    }
}

// ---- options ----

/// How UniUDP sends a message.
#[verifier::external_type_specification]
#[verifier::external_body]
pub struct ExSendOptions(uniudp::options::SendOptions);

/// UniUDP's default options with the given redundancy and chunk size.
pub uninterp spec fn plain_options(redundancy: u16, chunk_size: u16) -> SendOptions;

/// UniUDP's default options with the given redundancy and chunk size and
/// Reed-Solomon error correction.
pub uninterp spec fn corrected_options(
    redundancy: u16,
    chunk_size: u16,
    data_shards: u8,
    parity_shards: u8,
) -> SendOptions;

/// `SendOptions::new` with `with_redundancy` and `with_chunk_size`. The result
/// depends on the two numbers alone.
#[verifier::external_body]
fn options_without_fec(redundancy: u16, chunk_size: u16) -> (r: SendOptions)
    ensures
        r == plain_options(redundancy, chunk_size),
{
    SendOptions::new().with_redundancy(redundancy).with_chunk_size(chunk_size)
}

/// `SendOptions::new` with `with_redundancy`, `with_chunk_size` and
/// `with_fec_mode` for Reed-Solomon shards. The result depends on the four
/// numbers alone.
#[verifier::external_body]
fn options_with_fec(redundancy: u16, chunk_size: u16, data_shards: u8, parity_shards: u8) -> (r:
    SendOptions)
    ensures
        r == corrected_options(redundancy, chunk_size, data_shards, parity_shards),
{
    SendOptions::new().with_redundancy(redundancy).with_chunk_size(chunk_size).with_fec_mode(
        FecMode::ReedSolomon { data_shards, parity_shards },
    )
}

/// The options that a client sends with: error correction needs a group of more
/// than one.
pub open spec fn options_of(s: UdpSettings) -> SendOptions {
    if s.fec_group_size > 1 {
        corrected_options(s.redundancy, s.chunk_size, s.fec_group_size, s.parity_shards)
    } else {
        plain_options(s.redundancy, s.chunk_size)
    }
}

// ---- messages ----

/// The body of a message with parameters: BEVE if the format says so, JSON text
/// otherwise.
pub open spec fn params_body(params: Option<&Value>, body_format: u16) -> Result<
    Seq<u8>,
    ErrorModel,
> {
    match params {
        None => Ok(Seq::empty()),
        Some(value) => message::value_body(*value, params_format(body_format)),
    }
}

/// How parameters are written for a body format.
pub open spec fn params_format(body_format: u16) -> BodyFormat {
    if body_format == BodyFormat::Beve.wire() {
        BodyFormat::Beve
    } else {
        BodyFormat::Json
    }
}

/// The bytes of a message to a method.
pub open spec fn udp_payload(
    id: u64,
    method: Seq<char>,
    params: Option<&Value>,
    query_format: u16,
    body_format: u16,
    notify: bool,
) -> Result<Seq<u8>, ErrorModel> {
    match params_body(params, body_format) {
        Err(e) => Err(e),
        Ok(body) => {
            let m = websocket_client::call_message(
                id,
                notify,
                method,
                query_format,
                body,
                body_format,
            );
            Ok(message::frame_bytes(m.header, m.query, m.body))
        },
    }
}

/// The bytes of a message to a method.
pub fn build_message_for_udp(
    id: u64,
    method: &str,
    params: Option<&Value>,
    query_format: u16,
    body_format: u16,
    notify: bool,
) -> (r: Result<Vec<u8>, RepeError>)
    ensures
        match udp_payload(id, method@, params, query_format, body_format, notify) {
            Ok(bytes) => r matches Ok(v) && v@ == bytes,
            Err(e) => r matches Err(err) && err@ == e,
        },
{
    match params {
        None => Ok(
            message_with_formats(id, notify, method, query_format, None, body_format).to_vec(),
        ),
        Some(value) => {
            let format = if body_format == BodyFormat::Beve.code() {
                BodyFormat::Beve
            } else {
                BodyFormat::Json
            };
            match encode_value(value, format) {
                Ok(body) => Ok(
                    message_with_formats(
                        id,
                        notify,
                        method,
                        query_format,
                        Some(body.as_slice()),
                        body_format,
                    ).to_vec(),
                ),
                Err(e) => Err(e),
            }
        },
    }
}

// ---- the client ----

/// A client: whether its socket is open, the id of its next message, and how it
/// sends.
pub struct UniUdpClient {
    open: bool,
    next_repe_id: u64,
    settings: UdpSettings,
}

/// The state of a [`UniUdpClient`].
pub struct UdpModel {
    pub open: bool,
    pub next_id: u64,
    pub settings: UdpSettings,
}

impl View for UniUdpClient {
    type V = UdpModel;

    closed spec fn view(&self) -> UdpModel {
        UdpModel { open: self.open, next_id: self.next_repe_id, settings: self.settings }
    }
}

/// The error of a client that is closed.
pub open spec fn closed_client() -> ErrorModel {
    ErrorModel::Io { kind: IoKind::NotConnected, message: "udp client is closed"@ }
}

impl UdpModel {
    /// What sending a message yields: its id and its bytes, or an error.
    pub open spec fn sent(
        self,
        method: Seq<char>,
        params: Option<&Value>,
        query_format: u16,
        body_format: u16,
        notify: bool,
    ) -> Result<(u64, Seq<u8>), ErrorModel> {
        if !self.open {
            Err(closed_client())
        } else {
            match udp_payload(self.next_id, method, params, query_format, body_format, notify) {
                Ok(bytes) => Ok((self.next_id, bytes)),
                Err(e) => Err(e),
            }
        }
    }

    /// What sending a notify yields.
    pub open spec fn notified(self, method: Seq<char>, params: Option<&Value>) -> Result<
        (u64, Seq<u8>),
        ErrorModel,
    > {
        self.sent(
            method,
            params,
            QueryFormat::JsonPointer.wire(),
            BodyFormat::Json.wire(),
            true,
        )
    }

    /// What sending a request yields.
    pub open spec fn requested(self, method: Seq<char>, params: Option<&Value>) -> Result<
        (u64, Seq<u8>),
        ErrorModel,
    > {
        self.sent(
            method,
            params,
            QueryFormat::JsonPointer.wire(),
            BodyFormat::Json.wire(),
            false,
        )
    }

    /// The state after sending: an open client has spent an id, also if the
    /// message could not be written.
    pub open spec fn after_send(self) -> UdpModel {
        if self.open {
            UdpModel { next_id: websocket_server::next_id(self.next_id), ..self }
        } else {
            self
        }
    }
}

/// The outcome of preparing a message.
pub open spec fn prepared(r: Result<(u64, Vec<u8>), RepeError>) -> Result<
    (u64, Seq<u8>),
    ErrorModel,
> {
    match r {
        Ok((id, bytes)) => Ok((id, bytes@)),
        Err(e) => Err(e@),
    }
}

impl UniUdpClient {
    /// A client whose socket was opened.
    pub fn connect(
        redundancy: usize,
        chunk_size: usize,
        fec_group_size: usize,
        parity_shards: usize,
    ) -> (r: Result<UniUdpClient, RepeError>)
        ensures
            match settings_fault(
                redundancy as nat,
                chunk_size as nat,
                fec_group_size as nat,
                parity_shards as nat,
            ) {
                Some(text) => r matches Err(e) && e@ == invalid_input(text),
                None => r matches Ok(c) && c@.open && c@.next_id == 1 && c@.settings.redundancy
                    == redundancy && c@.settings.chunk_size == chunk_size
                    && c@.settings.fec_group_size == fec_group_size && c@.settings.parity_shards
                    == parity_shards,
            },
    {
        match check_settings(redundancy, chunk_size, fec_group_size, parity_shards) {
            Ok(settings) => Ok(UniUdpClient { open: true, next_repe_id: 1, settings }),
            Err(e) => Err(e),
        }
    }

    /// Whether the client can send.
    pub fn is_open(&self) -> (r: bool)
        ensures
            r == self@.open,
    {
        self.open
    }

    /// Closes the client for good.
    pub fn close(&mut self)
        ensures
            final(self)@ == (UdpModel { open: false, ..old(self)@ }),
    {
        self.open = false;
    }

    /// How the client sends.
    pub fn send_options(&self) -> (r: SendOptions)
        ensures
            r == options_of(self@.settings),
    {
        if self.settings.fec_group_size > 1 {
            options_with_fec(
                self.settings.redundancy,
                self.settings.chunk_size,
                self.settings.fec_group_size,
                self.settings.parity_shards,
            )
        } else {
            options_without_fec(self.settings.redundancy, self.settings.chunk_size)
        }
    }

    /// The id and the bytes of a notify.
    pub fn send_notify(&mut self, method: &str, params: Option<&Value>) -> (r: Result<
        (u64, Vec<u8>),
        RepeError,
    >)
        ensures
            prepared(r) == old(self)@.sent(
                method@,
                params,
                QueryFormat::JsonPointer.wire(),
                BodyFormat::Json.wire(),
                true,
            ),
            prepared(r) == old(self)@.notified(method@, params),
            final(self)@ == old(self)@.after_send(),
    {
        self.send_with_formats(
            method,
            params,
            QueryFormat::JsonPointer.code(),
            BodyFormat::Json.code(),
            true,
        )
    }

    /// The id and the bytes of a request.
    pub fn send_request(&mut self, method: &str, params: Option<&Value>) -> (r: Result<
        (u64, Vec<u8>),
        RepeError,
    >)
        ensures
            prepared(r) == old(self)@.sent(
                method@,
                params,
                QueryFormat::JsonPointer.wire(),
                BodyFormat::Json.wire(),
                false,
            ),
            prepared(r) == old(self)@.requested(method@, params),
            final(self)@ == old(self)@.after_send(),
    {
        self.send_with_formats(
            method,
            params,
            QueryFormat::JsonPointer.code(),
            BodyFormat::Json.code(),
            false,
        )
    }

    /// The id and the bytes of a message in the given formats.
    pub fn send_with_formats(
        &mut self,
        method: &str,
        params: Option<&Value>,
        query_format: u16,
        body_format: u16,
        notify: bool,
    ) -> (r: Result<(u64, Vec<u8>), RepeError>)
        ensures
            prepared(r) == old(self)@.sent(method@, params, query_format, body_format, notify),
            final(self)@ == old(self)@.after_send(),
    {
        if !self.open {
            return Err(RepeError::io(IoKind::NotConnected, "udp client is closed"));
        }
        let repe_id: u64 = self.next_repe_id;
        self.next_repe_id = repe_id.wrapping_add(1);
        match build_message_for_udp(repe_id, method, params, query_format, body_format, notify) {
            Ok(payload) => Ok((repe_id, payload)),
            Err(e) => Err(e),
        }
    }
}

/// What sending message `repe_id` comes to, given what UniUDP answered.
pub open spec fn send_outcome(repe_id: u64, sent: Result<u64, Seq<char>>) -> Result<
    u64,
    ErrorModel,
> {
    match sent {
        Ok(id) => if id == repe_id {
            Ok(repe_id)
        } else {
            Err(
                ErrorModel::Io {
                    kind: IoKind::Other,
                    message: "uniudp returned a mismatched message id"@,
                },
            )
        },
        Err(text) => Err(
            ErrorModel::Io { kind: IoKind::Other, message: "uniudp send failed: "@ + text },
        ),
    }
}

/// What sending a message came to.
pub open spec fn send_settled(r: Result<u64, RepeError>) -> Result<u64, ErrorModel> {
    match r {
        Ok(id) => Ok(id),
        Err(e) => Err(e@),
    }
}

/// What sending message `repe_id` comes to: UniUDP answers with the id that it
/// sent, or with the words of its error.
pub fn settle_send(repe_id: u64, sent: Result<u64, String>) -> (r: Result<u64, RepeError>)
    ensures
        match sent {
            Ok(id) => if id == repe_id {
                r == Ok::<u64, RepeError>(repe_id)
            } else {
                r matches Err(e) && e@ == (ErrorModel::Io {
                    kind: IoKind::Other,
                    message: "uniudp returned a mismatched message id"@,
                })
            },
            Err(text) => r matches Err(e) && e@ == (ErrorModel::Io {
                kind: IoKind::Other,
                message: "uniudp send failed: "@ + text@,
            }),
        },
        send_settled(r) == send_outcome(
            repe_id,
            match sent {
                Ok(id) => Ok(id),
                Err(text) => Err(text@),
            },
        ),
{
    match sent {
        Ok(id) => if id == repe_id {
            Ok(repe_id)
        } else {
            Err(RepeError::io(IoKind::Other, "uniudp returned a mismatched message id"))
        },
        Err(text) => Err(
            RepeError::io(
                IoKind::Other,
                concat2("uniudp send failed: ", text.as_str()).as_str(),
            ),
        ),
    }
}

// ---- laws ----

/// A closed client sends nothing, spends no id, and stays closed.
pub proof fn a_closed_client_stays_closed(
    c: UdpModel,
    method: Seq<char>,
    params: Option<&Value>,
    query_format: u16,
    body_format: u16,
    notify: bool,
)
    requires
        !c.open,
    ensures
        c.sent(method, params, query_format, body_format, notify) == Err::<(u64, Seq<u8>), _>(
            closed_client(),
        ),
        c.after_send() == c,
{
}

/// Two messages that a client sends one after the other carry different ids,
/// the second the one behind the first.
pub proof fn messages_carry_successive_ids(
    c: UdpModel,
    method: Seq<char>,
    params: Option<&Value>,
    query_format: u16,
    body_format: u16,
    notify: bool,
    next: Seq<char>,
)
    requires
        c.sent(method, params, query_format, body_format, notify) is Ok,
        c.after_send().sent(next, params, query_format, body_format, notify) is Ok,
    ensures
        c.after_send().sent(next, params, query_format, body_format, notify)->Ok_0.0
            == websocket_server::next_id(
            c.sent(method, params, query_format, body_format, notify)->Ok_0.0,
        ),
        c.after_send().sent(next, params, query_format, body_format, notify)->Ok_0.0 != c.sent(
            method,
            params,
            query_format,
            body_format,
            notify,
        )->Ok_0.0,
{
}

/// What a client sends can be read back: a message with its id, method and
/// body.
pub proof fn what_is_sent_can_be_read(
    c: UdpModel,
    method: Seq<char>,
    params: Option<&Value>,
    query_format: u16,
    body_format: u16,
    notify: bool,
)
    requires
        c.sent(method, params, query_format, body_format, notify) is Ok,
        c.sent(method, params, query_format, body_format, notify)->Ok_0.1.len() <= u64::MAX,
    ensures
        message::parse_exact(c.sent(method, params, query_format, body_format, notify)->Ok_0.1)
            matches Ok(m) && m.header.id == c.next_id && (m.header.notify == 1) == notify
            && m.header.notify <= 1 && m.header.version == 1 && m.header.ec == 0
            && m.header.query_format == query_format && m.header.body_format == body_format && m.query
            == vstd::utf8::encode_utf8(method) && Ok::<_, ErrorModel>(m.body) == params_body(
            params,
            body_format,
        ),
{
    let body = params_body(params, body_format)->Ok_0;
    let m = websocket_client::call_message(
        c.next_id,
        notify,
        method,
        query_format,
        body,
        body_format,
    );
    let bytes = c.sent(method, params, query_format, body_format, notify)->Ok_0.1;
    message::header_round_trip(
        message::stamped(m.header, m.query.len(), m.body.len()),
        m.query + m.body,
    );
    message::frame_round_trip(m.header, m.query, m.body, Seq::empty());
    assert(bytes + Seq::<u8>::empty() =~= bytes);
}

/// A client corrects errors exactly where its group holds more than one packet,
/// whatever its redundancy, and sends with the numbers that it was configured
/// with either way.
pub proof fn a_group_is_what_error_correction_takes(s: UdpSettings)
    ensures
        s.fec_group_size >= 2 ==> options_of(s) == corrected_options(
            s.redundancy,
            s.chunk_size,
            s.fec_group_size,
            s.parity_shards,
        ),
        s.fec_group_size <= 1 ==> options_of(s) == plain_options(s.redundancy, s.chunk_size),
{
}

/// Settings are accepted exactly where every number fits: redundancy and chunk
/// size in 16 bits, at most 64 packets in a group, and 1 to 16 parity packets.
pub proof fn settings_are_refused_only_for_cause(
    redundancy: nat,
    chunk_size: nat,
    fec_group_size: nat,
    parity_shards: nat,
)
    ensures
        settings_fault(redundancy, chunk_size, fec_group_size, parity_shards) is None
            <==> redundancy <= 65535 && chunk_size <= 65535 && fec_group_size <= 64 && 1
            <= parity_shards <= 16,
        settings_fault(redundancy, chunk_size, fec_group_size, parity_shards) == Some(
            "redundancy exceeds u16::MAX"@,
        ) <== redundancy > 65535,
{
}

/// Parameters are written in the format that the message declares: as BEVE where
/// it says BEVE, as JSON otherwise, and not at all where there are none.
pub proof fn parameters_are_written_as_declared(value: Value, body_format: u16)
    ensures
        params_body(None, body_format) == Ok::<Seq<u8>, ErrorModel>(Seq::empty()),
        body_format == 1 ==> params_body(Some(&value), body_format) == message::value_body(
            value,
            BodyFormat::Beve,
        ),
        body_format != 1 ==> params_body(Some(&value), body_format) == message::value_body(
            value,
            BodyFormat::Json,
        ),
{
}

/// An open client sends every message that can be written, under its next id, and
/// one that cannot be written fails with the error of its parameters. Sending
/// leaves the client open and its settings as they are.
pub proof fn an_open_client_sends(
    c: UdpModel,
    method: Seq<char>,
    params: Option<&Value>,
    query_format: u16,
    body_format: u16,
    notify: bool,
)
    requires
        c.open,
    ensures
        c.sent(method, params, query_format, body_format, notify) is Ok <==> params_body(
            params,
            body_format,
        ) is Ok,
        c.sent(method, params, query_format, body_format, notify) matches Ok(sent) ==> sent.0
            == c.next_id,
        c.sent(method, params, query_format, body_format, notify) matches Err(e) ==> params_body(
            params,
            body_format,
        ) == Err::<Seq<u8>, ErrorModel>(e),
        c.after_send().open,
        c.after_send().settings == c.settings,
        c.next_id < u64::MAX ==> c.after_send().next_id == c.next_id + 1,
{
}

/// A message counts as sent exactly where UniUDP says that it sent that message.
pub proof fn a_message_is_sent_where_uniudp_says_so(repe_id: u64, sent: Result<u64, Seq<char>>)
    ensures
        send_outcome(repe_id, sent) is Ok <==> sent == Ok::<u64, Seq<char>>(repe_id),
        send_outcome(repe_id, sent) is Ok ==> send_outcome(repe_id, sent) == Ok::<u64, ErrorModel>(
            repe_id,
        ),
{
}

/// A notify is read as a notify and a request as a request, by their methods, with
/// parameters in JSON.
pub proof fn a_notify_is_no_request(c: UdpModel, method: Seq<char>, params: Option<&Value>)
    ensures
        c.notified(method, params) matches Ok(sent) ==> (sent.1.len() <= u64::MAX ==> (
        message::parse_exact(sent.1) matches Ok(m) && m.header.notify == 1 && m.header.query_format
            == 1 && m.header.body_format == 2 && m.query == vstd::utf8::encode_utf8(method))),
        c.requested(method, params) matches Ok(sent) ==> (sent.1.len() <= u64::MAX ==> (
        message::parse_exact(sent.1) matches Ok(m) && m.header.notify == 0 && m.header.query_format
            == 1 && m.header.body_format == 2 && m.query == vstd::utf8::encode_utf8(method))),
{
    if let Ok(sent) = c.notified(method, params) {
        if sent.1.len() <= u64::MAX {
            what_is_sent_can_be_read(c, method, params, 1, 2, true);
        }
    }
    if let Ok(sent) = c.requested(method, params) {
        if sent.1.len() <= u64::MAX {
            what_is_sent_can_be_read(c, method, params, 1, 2, false);
        }
    }
}

} // verus!
