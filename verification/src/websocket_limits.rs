//! Size limits of a WebSocket connection.
//!
//! The reader of a connection enforces its own limits and tells the other side
//! nothing of them. So besides the limits for what comes in, an endpoint holds
//! one that it assumes of its peer, and refuses to send what the peer would
//! answer by closing the connection.

use crate::error::{ErrorModel, RepeError};
use tokio_tungstenite::tungstenite::protocol::WebSocketConfig;
use vstd::prelude::*;

verus! {

/// The frame size that an endpoint accepts unless told otherwise: 16 MiB.
pub const DEFAULT_MAX_FRAME_SIZE: usize = 0x100_0000;

/// The message size that an endpoint accepts unless told otherwise: 64 MiB.
pub const DEFAULT_MAX_MESSAGE_SIZE: usize = 0x400_0000;

/// Size limits of one connection. `None` is no limit.
#[derive(Debug, Clone, Copy, PartialEq, Eq, Structural)]
pub struct WebSocketLimits {
    /// Largest frame that is accepted.
    pub max_incoming_frame_size: Option<usize>,
    /// Largest reassembled message that is accepted.
    pub max_incoming_message_size: Option<usize>,
    /// Size above which a message is not sent. It is configured, never learned
    /// from the peer.
    pub assumed_peer_frame_limit: Option<usize>,
}

impl Default for WebSocketLimits {
    fn default() -> (r: WebSocketLimits)
        ensures
            r == (WebSocketLimits {
                max_incoming_frame_size: Some(DEFAULT_MAX_FRAME_SIZE),
                max_incoming_message_size: Some(DEFAULT_MAX_MESSAGE_SIZE),
                assumed_peer_frame_limit: Some(DEFAULT_MAX_FRAME_SIZE),
            }),
    {
        WebSocketLimits {
            max_incoming_frame_size: Some(DEFAULT_MAX_FRAME_SIZE),
            max_incoming_message_size: Some(DEFAULT_MAX_MESSAGE_SIZE),
            assumed_peer_frame_limit: Some(DEFAULT_MAX_FRAME_SIZE),
        }
    }
}

/// What the outbound guard says of a message of `size` bytes.
pub open spec fn outbound_fault(limits: WebSocketLimits, size: nat) -> Option<ErrorModel> {
    match limits.assumed_peer_frame_limit {
        Some(limit) => if size > limit {
            Some(ErrorModel::MessageTooLarge { size, limit: limit as nat })
        } else {
            None
        },
        None => None,
    }
}

/// Whether the reader of an endpoint accepts a message that comes in one frame.
pub open spec fn accepted(limits: WebSocketLimits, size: nat) -> bool {
    &&& limits.max_incoming_frame_size matches Some(limit) ==> size <= limit
    &&& limits.max_incoming_message_size matches Some(limit) ==> size <= limit
}

impl WebSocketLimits {
    /// No limits at all. The outbound guard is off.
    pub fn unlimited() -> (r: WebSocketLimits)
        ensures
            r == (WebSocketLimits {
                max_incoming_frame_size: None,
                max_incoming_message_size: None,
                assumed_peer_frame_limit: None,
            }),
    {
        WebSocketLimits {
            max_incoming_frame_size: None,
            max_incoming_message_size: None,
            assumed_peer_frame_limit: None,
        }
    }

    /// Sets the largest frame that is accepted.
    pub fn with_max_incoming_frame_size(self, bytes: Option<usize>) -> (r: WebSocketLimits)
        ensures
            r == (WebSocketLimits { max_incoming_frame_size: bytes, ..self }),
    {
        WebSocketLimits { max_incoming_frame_size: bytes, ..self }
    }

    /// Sets the largest message that is accepted.
    pub fn with_max_incoming_message_size(self, bytes: Option<usize>) -> (r: WebSocketLimits)
        ensures
            r == (WebSocketLimits { max_incoming_message_size: bytes, ..self }),
    {
        WebSocketLimits { max_incoming_message_size: bytes, ..self }
    }

    /// Sets the limit that is assumed of the peer.
    pub fn with_assumed_peer_frame_limit(self, bytes: Option<usize>) -> (r: WebSocketLimits)
        ensures
            r == (WebSocketLimits { assumed_peer_frame_limit: bytes, ..self }),
    {
        WebSocketLimits { assumed_peer_frame_limit: bytes, ..self }
    }

    /// Refuses a message that is larger than what is assumed of the peer.
    pub fn check_outbound(&self, size: usize) -> (r: Result<(), RepeError>)
        ensures
            match r {
                Ok(_) => outbound_fault(*self, size as nat) is None,
                Err(e) => outbound_fault(*self, size as nat) == Some(e@),
            },
    {
        match self.assumed_peer_frame_limit {
            Some(limit) => if size > limit {
                Err(RepeError::MessageTooLarge { size, limit })
            } else {
                Ok(())
            },
            None => Ok(()),
        }
    }
}

/// The settings of a tungstenite connection.
#[verifier::external_type_specification]
#[verifier::external_body]
pub struct ExWebSocketConfig(tokio_tungstenite::tungstenite::protocol::WebSocketConfig);

/// tungstenite's default settings with the two limits on what is read.
pub uninterp spec fn reading_config(
    max_frame_size: Option<usize>,
    max_message_size: Option<usize>,
) -> WebSocketConfig;

/// `WebSocketConfig::default` with `max_frame_size` and `max_message_size` set.
/// The result depends on the two limits alone; the buffer sizes are
/// tungstenite's own.
#[verifier::external_body]
fn config_with(max_frame_size: Option<usize>, max_message_size: Option<usize>) -> (r:
    WebSocketConfig)
    ensures
        r == reading_config(max_frame_size, max_message_size),
{
    WebSocketConfig::default().max_frame_size(max_frame_size).max_message_size(max_message_size)
}

impl From<WebSocketLimits> for WebSocketConfig {
    /// Only the limits on what is read map through: the transport has nothing
    /// that stands for the outbound guard.
    fn from(limits: WebSocketLimits) -> (r: WebSocketConfig) {
        config_with(limits.max_incoming_frame_size, limits.max_incoming_message_size)
    }
}

impl vstd::std_specs::convert::FromSpecImpl<WebSocketLimits> for WebSocketConfig {
    open spec fn obeys_from_spec() -> bool {
        true
    }

    open spec fn from_spec(limits: WebSocketLimits) -> WebSocketConfig {
        reading_config(limits.max_incoming_frame_size, limits.max_incoming_message_size)
    }
}

/// What the guard lets through, a peer with the assumed frame limit accepts,
/// unless its limit on whole messages is the smaller one.
pub proof fn what_is_sent_is_accepted(
    sender: WebSocketLimits,
    receiver: WebSocketLimits,
    size: nat,
)
    requires
        sender.assumed_peer_frame_limit == receiver.max_incoming_frame_size,
        receiver.max_incoming_message_size matches Some(message) ==> (
        receiver.max_incoming_frame_size matches Some(frame) && frame <= message),
        outbound_fault(sender, size) is None,
    ensures
        accepted(receiver, size),
{
}

/// The guard refuses only what a peer with the assumed frame limit would not
/// accept.
pub proof fn nothing_deliverable_is_refused(
    sender: WebSocketLimits,
    receiver: WebSocketLimits,
    size: nat,
)
    requires
        sender.assumed_peer_frame_limit == receiver.max_incoming_frame_size,
        accepted(receiver, size),
    ensures
        outbound_fault(sender, size) is None,
{
}

/// The guard refuses exactly what is larger than the assumed limit, and says how
/// large it is and what the limit was; without an assumption it refuses nothing.
pub proof fn the_guard_refuses_what_is_too_large(limits: WebSocketLimits, size: nat)
    ensures
        limits.assumed_peer_frame_limit matches Some(limit) ==> (outbound_fault(limits, size)
            == Some(ErrorModel::MessageTooLarge { size, limit: limit as nat }) <==> size > limit),
        limits.assumed_peer_frame_limit matches Some(limit) ==> (outbound_fault(limits, size)
            is None <==> size <= limit),
        limits.assumed_peer_frame_limit is None ==> outbound_fault(limits, size) is None,
{
}

/// A reader enforces both of its limits.
pub proof fn a_reader_enforces_both_limits(limits: WebSocketLimits, size: nat)
    ensures
        accepted(limits, size) <==> (limits.max_incoming_frame_size is None || size
            <= limits.max_incoming_frame_size->0) && (limits.max_incoming_message_size is None
            || size <= limits.max_incoming_message_size->0),
        <WebSocketConfig as vstd::std_specs::convert::FromSpec<WebSocketLimits>>::from_spec(limits)
            == reading_config(limits.max_incoming_frame_size, limits.max_incoming_message_size),
{
}

} // verus!
