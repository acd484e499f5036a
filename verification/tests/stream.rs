//! Flow control, replay and resumption.

use repe::peer::{PeerHandle, PeerId};
use repe::stream::{
    watchdog_tick, CreditError, ReconnectOutcome, ReplayRing, ResumeRejection, TransferControl,
    TransferRegistry,
};

const MS: u64 = 1_000_000;

fn control(window: u64) -> TransferControl<PeerHandle> {
    TransferControl::new(window, 0)
}

fn peer(id: u64) -> PeerHandle {
    PeerHandle::new(PeerId(id))
}

#[test]
fn wait_returns_immediately_when_window_has_room() {
    let ctl = control(1024);
    ctl.wait_for_credit(512, 0, 50 * MS).expect("no need to park").unwrap();
}

#[test]
fn wait_blocks_when_window_full_and_unblocks_on_ack() {
    let mut ctl = control(1024);
    ctl.record_sent(1024, 0);
    assert!(ctl.wait_for_credit(512, 0, 2000 * MS).is_none());
    assert!(ctl.record_ack(0, 512, 50 * MS), "the ack wakes the producer");
    ctl.wait_for_credit(512, 50 * MS, 2000 * MS).expect("woken").expect("ack should release credit");
}

#[test]
fn wait_returns_timeout_when_no_ack_arrives() {
    let mut ctl = control(1024);
    ctl.record_sent(1024, 0);
    assert!(ctl.wait_for_credit(512, 79 * MS, 80 * MS).is_none());
    let err = ctl.wait_for_credit(512, 80 * MS, 80 * MS).unwrap().unwrap_err();
    assert!(matches!(err, CreditError::Timeout), "got {err:?}");
    assert_eq!(err.text(), "credit timeout");
}

#[test]
fn cancel_unblocks_waiters() {
    let mut ctl = control(1024);
    ctl.record_sent(1024, 0);
    assert!(ctl.wait_for_credit(512, 0, 5000 * MS).is_none());
    assert!(ctl.cancel("client cancelled"), "the first cancel wakes the producer");
    let err = ctl.wait_for_credit(512, 50 * MS, 5000 * MS).unwrap().unwrap_err();
    assert_eq!(err.text(), "transfer cancelled: client cancelled");
    match err {
        CreditError::Cancelled(reason) => assert_eq!(reason, "client cancelled"),
        other => panic!("expected Cancelled, got {other:?}"),
    }
}

#[test]
fn a_second_cancel_keeps_the_first_reason() {
    let mut ctl = control(1024);
    assert!(!ctl.is_cancelled());
    assert_eq!(ctl.cancel_reason(), None);
    assert!(ctl.cancel("first"));
    assert!(!ctl.cancel("second"));
    assert!(ctl.is_cancelled());
    assert_eq!(ctl.cancel_reason(), Some("first".to_string()));
}

#[test]
fn ack_for_wrong_file_index_is_ignored() {
    let mut ctl = control(1024);
    ctl.record_sent(800, 0);
    ctl.record_ack(7, 600, 0);
    let (sent, acked) = ctl.offsets();
    assert_eq!(sent, 800);
    assert_eq!(acked, 0);
}

#[test]
fn ack_offset_is_capped_to_sent_offset() {
    let mut ctl = control(1024);
    ctl.record_sent(400, 0);
    ctl.record_ack(0, 999_999, 0);
    let (_, acked) = ctl.offsets();
    assert_eq!(acked, 400, "ack must not advance past actually-sent bytes");
}

#[test]
fn offsets_do_not_go_back_within_a_file() {
    let mut ctl = control(1024);
    ctl.record_sent(400, 1);
    ctl.record_sent(300, 2);
    ctl.record_ack(0, 200, 3);
    assert!(!ctl.record_ack(0, 100, 4));
    assert_eq!(ctl.offsets(), (400, 200));
    assert_eq!(ctl.timestamps(), (2, 4));
}

#[test]
fn advance_to_file_resets_offsets() {
    let mut ctl = control(1024);
    ctl.record_sent(900, 0);
    ctl.record_ack(0, 800, 0);
    ctl.advance_to_file(1, 0);
    let (sent, acked) = ctl.offsets();
    assert_eq!(sent, 0);
    assert_eq!(acked, 0);
}

#[test]
fn registry_round_trip() {
    #[derive(Hash, Eq, PartialEq, Copy, Clone)]
    struct Id(u64);
    let mut reg: TransferRegistry<Id, std::sync::Arc<TransferControl<PeerHandle>>> =
        TransferRegistry::new();
    let ctl = std::sync::Arc::new(control(1024));
    let id = Id(424_242);
    reg.register(id, std::sync::Arc::clone(&ctl));
    assert!(reg.get(id).is_some());
    let removed = reg.unregister(id).unwrap();
    assert!(std::sync::Arc::ptr_eq(&removed, &ctl));
    assert!(reg.get(id).is_none());
}

#[test]
fn the_registry_counts_and_lists() {
    let mut reg: TransferRegistry<u64, &str> = TransferRegistry::default();
    assert!(reg.is_empty());
    reg.register(1, "a");
    reg.register(2, "b");
    reg.register(1, "c");
    assert_eq!(reg.len(), 2);
    let mut listed = reg.snapshot();
    listed.sort();
    assert_eq!(listed, vec![(1, &"c"), (2, &"b")]);
}

#[test]
fn oversized_chunk_does_not_deadlock_when_window_is_idle() {
    let ctl = control(1024);
    ctl.wait_for_credit(8192, 0, 50 * MS).expect("no need to park").unwrap();
}

#[test]
fn replay_ring_evicts_oldest_when_full() {
    let mut ring = ReplayRing::new(100);
    ring.push(0, 40, false, vec![0u8; 40]);
    ring.push(40, 40, false, vec![0u8; 40]);
    assert_eq!(ring.bytes_held(), 80);
    assert_eq!(ring.chunk_count(), 2);

    ring.push(80, 40, false, vec![0u8; 40]);
    assert_eq!(ring.bytes_held(), 80);
    assert_eq!(ring.chunk_count(), 2);
    assert_eq!(ring.chunk(0).unwrap().offset, 40);
    assert_eq!(ring.chunk(ring.chunk_count() - 1).unwrap().offset, 80);
}

#[test]
fn replay_ring_keeps_single_oversized_chunk() {
    let mut ring = ReplayRing::new(50);
    ring.push(0, 200, false, vec![0u8; 200]);
    assert_eq!(ring.chunk_count(), 1);
    assert_eq!(ring.bytes_held(), 200);
}

#[test]
fn replay_ring_covers_offsets() {
    let mut ring = ReplayRing::new(1024);
    assert!(ring.covers(0));
    assert!(!ring.covers(8));

    ring.push(0, 16, false, vec![0u8; 16]);
    ring.push(16, 16, false, vec![0u8; 16]);
    assert!(ring.covers(0));
    assert!(ring.covers(16));
    assert!(!ring.covers(8));
    // Trailing edge.
    assert!(ring.covers(32));
    assert!(!ring.covers(64));
}

#[test]
fn replay_ring_covers_trailing_edge_when_wire_bytes_exceed_data_len() {
    let mut ring = ReplayRing::new(1024);
    ring.push(0, 16, false, vec![0u8; 24]); // 8 bytes envelope
    ring.push(16, 16, true, vec![0u8; 24]);
    assert!(ring.covers(32));
    assert!(!ring.covers(48));
}

#[test]
fn replay_chunks_from_returns_tail() {
    let mut ring = ReplayRing::new(1024);
    ring.push(0, 16, false, vec![0xAA; 16]);
    ring.push(16, 16, false, vec![0xBB; 16]);
    ring.push(32, 16, true, vec![0xCC; 16]);

    let from_16 = ring.replay_from(16);
    assert_eq!(from_16.len(), 2);
    assert_eq!(from_16[0].offset, 16);
    assert_eq!(from_16[1].offset, 32);
    assert!(from_16[1].last);
}

#[test]
fn the_ring_takes_only_what_abuts() {
    let mut ring = ReplayRing::new(1024);
    assert!(ring.accepts(7, 1));
    assert!(!ring.accepts(u64::MAX, 1));
    ring.push(7, 3, false, vec![1, 2, 3]);
    assert_eq!(ring.highest_end_offset(), Some(10));
    assert!(ring.accepts(10, 5));
    assert!(!ring.accepts(11, 5));
    ring.clear();
    assert_eq!(ring.highest_end_offset(), None);
}

#[test]
fn request_resume_validates_file_index() {
    let mut ctl = TransferControl::with_replay_capacity(1024, 1024, 0);
    ctl.set_peer(peer(1));
    ctl.advance_to_file(2, 0);
    ctl.push_replay(0, 16, false, vec![0u8; 16]);

    let new_peer = peer(2);
    let err = ctl.request_resume(new_peer, 5, 0, 0).unwrap_err();
    assert_eq!(err.reason(), "wrong_file_index");
    match err {
        ResumeRejection::WrongFileIndex { requested, current } => {
            assert_eq!(requested, 5);
            assert_eq!(current, 2);
        }
        other => panic!("expected WrongFileIndex, got {other:?}"),
    }
}

#[test]
fn request_resume_validates_offset_in_ring() {
    let mut ctl = TransferControl::with_replay_capacity(1024, 64, 0);
    ctl.set_peer(peer(1));
    ctl.push_replay(0, 32, false, vec![0u8; 32]);
    ctl.push_replay(32, 32, false, vec![0u8; 32]);
    ctl.push_replay(64, 32, false, vec![0u8; 32]);
    // Ring capacity = 64; first chunk (offset 0) was evicted.
    let new_peer = peer(2);
    let err = ctl.request_resume(new_peer, 0, 0, 0).unwrap_err();
    assert_eq!(err, ResumeRejection::OutOfWindow);
    assert_eq!(err.reason(), "out_of_window");
}

#[test]
fn request_resume_signals_writer_via_condvar() {
    let mut ctl = control(1024);
    ctl.set_peer(peer(1));
    ctl.push_replay(0, 16, false, vec![0u8; 16]);
    assert!(ctl.wait_for_reconnect(0, 2000 * MS).is_none());

    assert_eq!(ctl.request_resume(peer(2), 0, 0, 40 * MS).unwrap(), 0);
    assert_eq!(ctl.peer(), Some(&peer(2)));
    match ctl.wait_for_reconnect(40 * MS, 2000 * MS).unwrap() {
        ReconnectOutcome::ResumeReady(pending) => {
            assert_eq!(pending.resume_at_offset, 0);
        }
        other => panic!("expected ResumeReady, got {other:?}"),
    }
    assert!(ctl.wait_for_reconnect(40 * MS, 2000 * MS).is_none(), "a resume is taken once");
}

#[test]
fn a_cancelled_transfer_is_not_resumed() {
    let mut ctl = control(1024);
    ctl.cancel("gone");
    let err = ctl.request_resume(peer(2), 0, 0, 0).unwrap_err();
    assert_eq!(err, ResumeRejection::Cancelled);
    assert_eq!(err.reason(), "transfer_cancelled");
}

#[test]
fn a_resume_replays_what_is_missing() {
    let mut ctl = control(1024);
    ctl.push_replay(0, 4, false, vec![0, 1, 2, 3]);
    ctl.push_replay(4, 4, true, vec![4, 5, 6, 7]);
    ctl.record_sent(8, 0);
    assert_eq!(ctl.request_resume(peer(2), 0, 4, 0), Ok(4));
    let missing = ctl.replay_chunks_from(4);
    assert_eq!(missing.len(), 1);
    assert_eq!(*missing[0].body_bytes, vec![4, 5, 6, 7]);
}

#[test]
fn wait_for_reconnect_times_out() {
    let mut ctl = control(1024);
    assert!(ctl.wait_for_reconnect(0, 40 * MS).is_none());
    match ctl.wait_for_reconnect(40 * MS, 40 * MS).unwrap() {
        ReconnectOutcome::Timeout => {}
        other => panic!("expected Timeout, got {other:?}"),
    }
}

#[test]
fn wait_for_reconnect_returns_cancelled_when_cancelled() {
    let mut ctl = control(1024);
    ctl.cancel("client requested abort");
    match ctl.wait_for_reconnect(0, 1000 * MS).unwrap() {
        ReconnectOutcome::Cancelled(reason) => {
            assert_eq!(reason, "client requested abort")
        }
        other => panic!("expected Cancelled, got {other:?}"),
    }
}

#[test]
fn advance_to_file_clears_replay_ring() {
    let mut ctl = TransferControl::with_replay_capacity(1024, 1024, 0);
    ctl.set_peer(peer(1));
    ctl.push_replay(0, 32, false, vec![0u8; 32]);
    let before = ctl.replay_chunks_from(0);
    assert_eq!(before.len(), 1);
    ctl.advance_to_file(1, 0);
    let after = ctl.replay_chunks_from(0);
    assert!(after.is_empty(), "ring should be empty after file boundary");
}

#[test]
fn watchdog_check_logic_matches_spawn_loop() {
    let mut ctl = control(1024);
    let idle_timeout = 40 * MS;
    assert!(!ctl.expire_if_idle(39 * MS, idle_timeout));
    assert!(ctl.expire_if_idle(60 * MS, idle_timeout));
    match ctl.cancel_reason() {
        Some(reason) => assert_eq!(reason, "transfer idle"),
        None => panic!("watchdog should have cancelled"),
    }
    assert!(!ctl.expire_if_idle(90 * MS, idle_timeout), "a cancelled transfer is left alone");
}

#[test]
fn the_watchdog_ticks_within_bounds() {
    assert_eq!(watchdog_tick(100 * MS), 1000 * MS);
    assert_eq!(watchdog_tick(8_000 * MS), 2000 * MS);
    assert_eq!(watchdog_tick(60_000 * MS), 5000 * MS);
}
