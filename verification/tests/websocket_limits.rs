//! Size limits.

use repe::error::RepeError;
use repe::websocket_limits::{WebSocketLimits, DEFAULT_MAX_FRAME_SIZE, DEFAULT_MAX_MESSAGE_SIZE};
use tokio_tungstenite::tungstenite::protocol::WebSocketConfig;

#[test]
fn the_default_outbound_guard_matches_an_unconfigured_peers_inbound_limit() {
    let limits = WebSocketLimits::default();
    assert!(limits.check_outbound(DEFAULT_MAX_FRAME_SIZE).is_ok());
    let err = limits
        .check_outbound(DEFAULT_MAX_FRAME_SIZE + 1)
        .expect_err("one byte over the limit must be refused");
    assert!(matches!(
        err,
        RepeError::MessageTooLarge { size, limit }
            if size == DEFAULT_MAX_FRAME_SIZE + 1 && limit == DEFAULT_MAX_FRAME_SIZE
    ));
}

#[test]
fn removing_the_assumed_limit_disables_the_outbound_guard() {
    let limits = WebSocketLimits::default().with_assumed_peer_frame_limit(None);
    assert!(limits.check_outbound(usize::MAX).is_ok());
    assert!(
        WebSocketLimits::unlimited()
            .check_outbound(usize::MAX)
            .is_ok()
    );
}

#[test]
fn the_error_reports_both_the_size_and_the_assumed_limit() {
    let err = WebSocketLimits::default()
        .with_assumed_peer_frame_limit(Some(1024))
        .check_outbound(4096)
        .expect_err("over the limit");
    let text = err.text();
    assert!(text.contains("4096"), "{text}");
    assert!(text.contains("1024"), "{text}");
}

#[test]
fn only_the_read_side_thresholds_map_onto_the_transport_config() {
    let cfg: WebSocketConfig = WebSocketLimits::default()
        .with_max_incoming_frame_size(Some(123))
        .with_max_incoming_message_size(Some(456))
        .into();
    assert_eq!(cfg.max_frame_size, Some(123));
    assert_eq!(cfg.max_message_size, Some(456));
    assert_eq!(
        cfg.write_buffer_size,
        WebSocketConfig::default().write_buffer_size
    );
}

#[test]
fn the_defaults_are_those_of_the_transport() {
    assert_eq!(DEFAULT_MAX_FRAME_SIZE, 16 << 20);
    assert_eq!(DEFAULT_MAX_MESSAGE_SIZE, 64 << 20);
    let cfg = WebSocketConfig::default();
    let limits = WebSocketLimits::default();
    assert_eq!(limits.max_incoming_frame_size, cfg.max_frame_size);
    assert_eq!(limits.max_incoming_message_size, cfg.max_message_size);
}

#[test]
fn what_the_guard_lets_through_fits_a_peer_with_the_same_limit() {
    let sender = WebSocketLimits::default().with_assumed_peer_frame_limit(Some(100));
    let receiver = WebSocketLimits::default().with_max_incoming_frame_size(Some(100));
    assert!(sender.check_outbound(100).is_ok());
    assert!(100 <= receiver.max_incoming_frame_size.unwrap());
    assert!(sender.check_outbound(101).is_err());
}
