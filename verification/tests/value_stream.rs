//! Value streams.

use repe::constants::{BodyFormat, ErrorCode};
use repe::error::{IoKind, RepeError};
use repe::message::Message;
use repe::value_stream::{
    chunk_response, check_output, consume_failed_error, decode_content, encode_content,
    parse_open_response, produce, produce_encoded, pull_plan, pull_step, require_beve,
    settle_file, settle_pull, start_bulk_pull, start_pull, temp_name, terminal, CancelRequest, ChunkReader,
    ChunkSink, Compression, FileEnd, Msg, NextRequest, OpenInfo, OpenRequest, OpenResponse,
    PullPlan, PullStart, Session, SessionTable, StreamOpts, StreamOutput, SVS_VERSION,
};

fn lengths(chunks: &[Vec<u8>]) -> Vec<usize> {
    chunks.iter().map(|c| c.len()).collect()
}

#[test]
fn chunk_sink_splits_on_size_and_flushes_remainder() {
    let mut sink = ChunkSink::new(4);
    // 10 bytes at chunk size 4 -> [4][4][2].
    sink.write(&[0u8; 10]);
    sink.flush_remaining();
    let chunks = sink.take_ready();
    assert_eq!(lengths(&chunks), vec![4, 4, 2]);
    assert_eq!(chunks.concat().len(), 10);
}

#[test]
fn chunk_sink_intermediate_flush_does_not_emit_short_chunk() {
    let mut sink = ChunkSink::new(8);
    sink.write(&[1u8; 3]);
    sink.flush(); // must not push a 3-byte chunk
    sink.write(&[2u8; 7]); // now 10 buffered -> one 8-chunk emitted
    sink.flush_remaining();
    let chunks = sink.take_ready();
    assert_eq!(lengths(&chunks), vec![8, 2]);
}

#[test]
fn an_empty_remainder_is_not_a_chunk() {
    let mut sink = ChunkSink::new(2);
    sink.write(&[1, 2, 3, 4]);
    sink.flush_remaining();
    assert_eq!(sink.take_ready(), vec![vec![1, 2], vec![3, 4]]);
    assert!(sink.take_ready().is_empty());
}

fn session_from(msgs: Vec<Msg>) -> Session {
    let mut s = Session::new();
    for m in msgs {
        s.deliver(m);
    }
    s.close();
    s
}

#[test]
fn pull_marks_only_the_final_chunk_last() {
    let mut s = session_from(vec![
        Msg::Chunk(vec![1]),
        Msg::Chunk(vec![2]),
        Msg::Chunk(vec![3]),
        Msg::End,
    ]);
    assert_eq!(s.pull().unwrap().unwrap(), (vec![1], false));
    assert_eq!(s.pull().unwrap().unwrap(), (vec![2], false));
    assert_eq!(s.pull().unwrap().unwrap(), (vec![3], true));
}

#[test]
fn pull_single_chunk_is_last() {
    let mut s = session_from(vec![Msg::Chunk(vec![9, 9]), Msg::End]);
    assert_eq!(s.pull().unwrap().unwrap(), (vec![9, 9], true));
}

#[test]
fn pull_zero_chunk_stream_is_empty_last() {
    let mut s = session_from(vec![Msg::End]);
    assert_eq!(s.pull().unwrap().unwrap(), (Vec::<u8>::new(), true));
}

#[test]
fn pull_surfaces_producer_failure_instead_of_clean_end() {
    let mut s = session_from(vec![Msg::Chunk(vec![1]), Msg::Fail("boom".into())]);
    assert_eq!(s.pull().unwrap().unwrap_err(), "boom");
}

#[test]
fn pull_dropped_producer_is_an_error_not_a_terminus() {
    let mut s = Session::new();
    s.deliver(Msg::Chunk(vec![7]));
    s.close(); // vanish without End/Fail
    // First pull yields the buffered chunk, peek sees the bare close -> error.
    assert!(s.pull().unwrap().is_err());
}

#[test]
fn a_pull_waits_until_it_is_known_what_follows() {
    let mut s = Session::new();
    assert!(s.pull().is_none());
    s.deliver(Msg::Chunk(vec![1]));
    assert!(s.pull().is_none());
    s.deliver(Msg::End);
    assert_eq!(s.next_chunk().unwrap().unwrap(), (vec![1], true));
    assert_eq!(s.next_chunk().unwrap().unwrap_err(), "svs next: stream already finished");
}

#[test]
fn a_frame_is_decoded_to_what_was_encoded() {
    let content: Vec<u8> = (0..10_000u32).map(|i| (i % 251) as u8).collect();
    for compression in [Compression::Plain, Compression::Zstd] {
        let opts = StreamOpts { compression, ..StreamOpts::default() };
        let bytes = encode_content(&content, &opts).unwrap();
        assert_eq!(bytes == content, compression == Compression::Plain);
        assert_eq!(decode_content(&bytes, compression).unwrap(), content);
    }
    assert!(decode_content(b"not a frame", Compression::Zstd).is_err());
}

#[test]
fn the_error_of_the_codec_is_handed_on() {
    let content: Vec<u8> = (0..10_000u32).map(|i| (i % 251) as u8).collect();
    let opts = StreamOpts::default();
    let bytes = encode_content(&content, &opts).unwrap();
    let kind = |bytes: &[u8]| match decode_content(bytes, Compression::Zstd) {
        Err(RepeError::Io(e)) => e.kind,
        _ => panic!("not an io error"),
    };
    assert_eq!(kind(&bytes[..bytes.len() - 1]), IoKind::UnexpectedEof);
    assert_eq!(kind(b"not a frame"), IoKind::Other);
}

#[test]
fn a_production_ends_with_its_outcome() {
    assert!(matches!(terminal(Ok(())), Msg::End));
    match terminal(Err("disk full".to_string())) {
        Msg::Fail(text) => assert_eq!(text, "disk full"),
        _ => panic!("a failure is announced"),
    }
}

#[test]
fn a_stream_carries_its_content_to_the_consumer() {
    let content: Vec<u8> = (0..5_000u32).map(|i| (i * 7 % 253) as u8).collect();
    for compression in [Compression::Plain, Compression::Zstd] {
        let opts = StreamOpts { chunk_bytes: 64, compression, ..StreamOpts::default() };
        let mut table: SessionTable<Session> = SessionTable::new();
        let req = Message::builder().id(5).build();
        let opened = table
            .handle_open(
                &req,
                Some(&OpenRequest { resource: "r".to_string() }),
                Some(session_from(produce(&content, &opts))),
                &opts,
                BodyFormat::Beve.code(),
            )
            .unwrap();
        let info = parse_open_response(&opened).unwrap();
        assert_eq!(info.compression, compression);

        let mut reader = ChunkReader::new(info.stream_id);
        assert!(reader.check_complete().is_err());
        let mut bytes = Vec::new();
        loop {
            match reader.read(50) {
                None => {
                    let next = NextRequest { stream_id: reader.stream_id() };
                    let reply = table.handle_next(&req, Some(next)).expect("the producer is done");
                    assert_eq!(reply.header.id, 5);
                    reader.accept(reply);
                }
                Some(part) if part.is_empty() => break,
                Some(part) => bytes.extend(part),
            }
        }
        assert!(reader.check_complete().is_ok());
        assert_eq!(decode_content(&bytes, info.compression).unwrap(), content);
        assert!(table.get(info.stream_id).is_none(), "the last chunk releases the stream");
    }
}

#[test]
fn a_failed_production_is_one_message() {
    let msgs = produce_encoded(Err("no disk".to_string()), 4);
    assert_eq!(msgs.len(), 1);
    assert!(matches!(&msgs[0], Msg::Fail(m) if m == "no disk"));
}

#[test]
fn opening_and_pulling_report_what_is_wrong() {
    let mut table: SessionTable<Session> = SessionTable::new();
    let opts = StreamOpts::default();
    let req = Message::builder().id(2).build();
    let bad = table.handle_open(&req, None, None, &opts, 1).unwrap_err();
    assert_eq!(bad.error_code(), Some(ErrorCode::InvalidBody));
    assert_eq!(
        bad.error_message_utf8().as_deref(),
        Some("svs open: expected BEVE { resource: string }")
    );
    let unknown = table
        .handle_open(&req, Some(&OpenRequest { resource: "x".to_string() }), None, &opts, 1)
        .unwrap_err();
    assert_eq!(unknown.error_code(), Some(ErrorCode::MethodNotFound));
    assert_eq!(unknown.error_message_utf8().as_deref(), Some("svs open: unknown resource 'x'"));

    let bad = table.handle_next(&req, None).unwrap();
    assert_eq!(bad.error_code(), Some(ErrorCode::InvalidBody));
    let gone = table.handle_next(&req, Some(NextRequest { stream_id: 9 })).unwrap();
    assert_eq!(gone.error_code(), Some(ErrorCode::InvalidQuery));
    assert_eq!(gone.error_message_utf8().as_deref(), Some("svs next: unknown stream_id 9"));
}

#[test]
fn a_cancelled_stream_is_gone() {
    let mut table: SessionTable<Session> = SessionTable::new();
    let first = table.enroll(Session::new());
    let second = table.enroll(Session::new());
    assert_ne!(first, second);
    assert!(table.handle_cancel(Some(&CancelRequest { stream_id: first, reason: "done".into() })));
    assert!(table.get(first).is_none());
    assert!(table.get(second).is_some());
    assert!(table.handle_cancel(None));
    assert!(table.remove(second).is_some());
}

fn info(format: BodyFormat, compression: Compression) -> OpenInfo {
    OpenInfo { stream_id: 3, format: format.code(), compression }
}

#[test]
fn an_output_has_to_fit_the_stream() {
    let raw_zstd = info(BodyFormat::RawBinary, Compression::Zstd);
    let beve_plain = info(BodyFormat::Beve, Compression::Plain);
    let beve_zstd = info(BodyFormat::Beve, Compression::Zstd);
    assert!(check_output(StreamOutput::RawFile("f"), &raw_zstd).is_ok());
    assert!(check_output(StreamOutput::BeveZstdFile("f"), &raw_zstd).is_ok());
    assert!(check_output(StreamOutput::Value, &beve_plain).is_ok());
    let texts: Vec<String> = [
        check_output(StreamOutput::BeveZstdFile("f"), &beve_plain),
        check_output(StreamOutput::BeveFile("f"), &beve_plain),
        check_output(StreamOutput::BeveFile("f"), &raw_zstd),
        check_output(StreamOutput::Value, &raw_zstd),
        require_beve(&raw_zstd),
    ]
    .into_iter()
    .map(|r| r.unwrap_err().text())
    .collect();
    assert_eq!(
        texts,
        vec![
            "io error: svs: .beve.zst output needs a zstd-compressed stream",
            "io error: svs: .beve output needs a zstd-compressed stream",
            "io error: svs: .beve output needs format=BEVE, got format 0",
            "io error: svs: value decode needs format=BEVE, got format 0",
            "io error: svs: bulk slice decode needs format=BEVE, got format 0",
        ]
    );
    assert_eq!(pull_plan(StreamOutput::BeveZstdFile("f"), &beve_zstd).unwrap(), PullPlan::Copy);
    assert_eq!(pull_plan(StreamOutput::BeveFile("f"), &beve_zstd).unwrap(), PullPlan::Decompress);
    assert_eq!(
        pull_plan(StreamOutput::Value, &beve_plain).unwrap(),
        PullPlan::Decode { decompress: false }
    );
    assert_eq!(pull_plan(StreamOutput::RawFile("f"), &raw_zstd).unwrap(), PullPlan::Decompress);
}

#[test]
fn a_pull_is_refused_before_it_starts() {
    let raw = info(BodyFormat::RawBinary, Compression::Plain);
    match start_pull(StreamOutput::Value, &raw) {
        PullStart::Refuse { reason, .. } => {
            assert_eq!(reason, "output incompatible with stream tags")
        }
        PullStart::Pull(plan) => panic!("unexpected {plan:?}"),
    }
    match start_bulk_pull(&raw) {
        PullStart::Refuse { reason, .. } => {
            assert_eq!(reason, "format incompatible with bulk decode")
        }
        PullStart::Pull(plan) => panic!("unexpected {plan:?}"),
    }
    let beve = info(BodyFormat::Beve, Compression::Zstd);
    assert!(matches!(
        start_bulk_pull(&beve),
        PullStart::Pull(PullPlan::Decode { decompress: true })
    ));
}

#[test]
fn an_answer_to_open_is_checked() {
    let good = OpenResponse { version: SVS_VERSION, stream_id: 4, format: 1, compression: 1 };
    assert_eq!(
        parse_open_response(&good).unwrap(),
        OpenInfo { stream_id: 4, format: 1, compression: Compression::Zstd }
    );
    let old = OpenResponse { version: 7, ..good };
    assert_eq!(
        parse_open_response(&old).unwrap_err().text(),
        "io error: svs open: server contract version 7 != supported 1"
    );
    let odd = OpenResponse { compression: 9, ..good };
    assert_eq!(
        parse_open_response(&odd).unwrap_err().text(),
        "io error: svs open: unknown compression tag 9"
    );
}

#[test]
fn a_file_is_committed_only_after_the_last_chunk() {
    let req = Message::builder().id(1).build();
    let mut reader = ChunkReader::new(1);
    reader.accept(chunk_response(&req, vec![1, 2], false));
    match settle_file(&reader, Ok(()), Ok(())) {
        FileEnd::Discard { error, reason } => {
            assert_eq!(error.text(), "io error: svs: stream ended without a final chunk");
            assert_eq!(reason, "receiver aborted");
        }
        FileEnd::Commit => panic!("committed a short file"),
    }
    assert_eq!(reader.read(10), Some(vec![1, 2]));
    reader.accept(chunk_response(&req, vec![3], true));
    assert!(matches!(settle_file(&reader, Ok(()), Ok(())), FileEnd::Commit));
    let failed = settle_file(&reader, Ok(()), Err(RepeError::io(IoKind::Other, "disk full")));
    assert!(matches!(failed, FileEnd::Discard { .. }));
    let unfilled = settle_file(&reader, Err(RepeError::ReservedNonZero), Ok(()));
    assert!(matches!(unfilled, FileEnd::Discard { error: RepeError::ReservedNonZero, .. }));
}

#[test]
fn an_error_of_the_transfer_comes_first() {
    let broke = || Err::<(), _>(RepeError::io(IoKind::Other, "gone"));
    assert_eq!(settle_pull(broke(), Ok(1)).unwrap_err().text(), "io error: gone");
    assert_eq!(settle_pull(Ok(()), Ok(1)).unwrap(), 1);
    assert_eq!(
        settle_pull::<u8>(Ok(()), Err(consume_failed_error("panic"))).unwrap_err().text(),
        "io error: svs consume task failed: panic"
    );
}

#[test]
fn empty_chunks_are_not_fed_to_the_decoder() {
    let req = Message::builder().id(1).build();
    assert_eq!(pull_step(chunk_response(&req, Vec::new(), true)), (None, true));
    assert_eq!(pull_step(chunk_response(&req, vec![4], false)), (Some(vec![4]), false));
}

#[test]
fn a_download_has_a_name_of_its_own() {
    assert_eq!(temp_name("data.beve"), "data.beve.svspart");
}
