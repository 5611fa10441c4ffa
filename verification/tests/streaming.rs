use voicechat_core::chat::handle_chat_completion_server_event;
use voicechat_core::chat::ingest_chunk;
use voicechat_core::chat::finish_stream;
use voicechat_core::events::EventBuffers;
use voicechat_core::sse::FrameSplitter;

/// Feed a byte stream one byte at a time, as the tightest chunking.
fn feed_byte_by_byte(
    splitter: &mut FrameSplitter,
    buffers: &mut EventBuffers,
    id: u64,
    bytes: &[u8],
) -> bool {
    for b in bytes {
        let outcome = ingest_chunk(splitter, buffers, id, &[*b]);
        if outcome.halted {
            return true;
        }
    }
    false
}

#[test]
fn single_event_then_done_sentinel() {
    let mut splitter = FrameSplitter::new();
    let mut buffers = EventBuffers::new();
    let halted = feed_byte_by_byte(&mut splitter, &mut buffers, 1, b"data: hello\n\ndata: [DONE]\n\n");
    assert!(!halted);
    finish_stream(&mut splitter, &mut buffers, 1);
    let batch = buffers.drain(1);
    assert_eq!(batch, vec!["hello".to_string()]);
}

#[test]
fn trailing_data_flushed_at_end_of_stream() {
    let mut splitter = FrameSplitter::new();
    let mut buffers = EventBuffers::new();
    let halted = feed_byte_by_byte(&mut splitter, &mut buffers, 2, b"data: partial");
    assert!(!halted);
    finish_stream(&mut splitter, &mut buffers, 2);
    let batch = buffers.drain(2);
    assert_eq!(batch, vec!["partial".to_string()]);
}

#[test]
fn chunk_boundaries_do_not_matter() {
    let stream = b"data: alpha\n\n: keep-alive\n\ndata: beta\n\ndata: [DONE]\n\n";

    let mut s1 = FrameSplitter::new();
    let mut b1 = EventBuffers::new();
    feed_byte_by_byte(&mut s1, &mut b1, 3, stream);
    finish_stream(&mut s1, &mut b1, 3);

    let mut s2 = FrameSplitter::new();
    let mut b2 = EventBuffers::new();
    for chunk in stream.chunks(7) {
        ingest_chunk(&mut s2, &mut b2, 3, chunk);
    }
    finish_stream(&mut s2, &mut b2, 3);

    let expected = vec!["alpha".to_string(), "beta".to_string()];
    assert_eq!(b1.drain(3), expected);
    assert_eq!(b2.drain(3), expected);
}

#[test]
fn lone_separator_stays_in_payload() {
    let mut splitter = FrameSplitter::new();
    let mut buffers = EventBuffers::new();
    feed_byte_by_byte(&mut splitter, &mut buffers, 4, b"data: a\nb\n\n");
    let batch = buffers.drain(4);
    assert_eq!(batch, vec!["a\nb".to_string()]);
}

#[test]
fn non_data_frames_are_ignored() {
    let mut splitter = FrameSplitter::new();
    let mut buffers = EventBuffers::new();
    feed_byte_by_byte(
        &mut splitter,
        &mut buffers,
        5,
        b": comment\n\nevent: tick\n\ndata: [DONE] trailer\n\n",
    );
    finish_stream(&mut splitter, &mut buffers, 5);
    let batch = buffers.drain(5);
    assert!(batch.is_empty());
}

#[test]
fn invalid_bytes_are_replaced_not_fatal() {
    let mut buffers = EventBuffers::new();
    handle_chat_completion_server_event(&mut buffers, 6, b"data: \xff");
    let batch = buffers.drain(6);
    assert_eq!(batch, vec!["\u{FFFD}".to_string()]);
}

#[test]
fn handle_event_appends_only_data_frames() {
    let mut buffers = EventBuffers::new();
    handle_chat_completion_server_event(&mut buffers, 7, b"data: hi");
    handle_chat_completion_server_event(&mut buffers, 7, b"data: [DONE]");
    handle_chat_completion_server_event(&mut buffers, 7, b"other: x");
    handle_chat_completion_server_event(&mut buffers, 7, b"data: there");
    let batch = buffers.drain(7);
    assert_eq!(batch, vec!["hi".to_string(), "there".to_string()]);
}

#[test]
fn drain_is_idempotent() {
    let mut buffers = EventBuffers::new();
    buffers.append(8, "e1".to_string());
    buffers.append(8, "e2".to_string());
    assert_eq!(buffers.drain(8), vec!["e1".to_string(), "e2".to_string()]);
    assert_eq!(buffers.drain(8), Vec::<String>::new());
}

#[test]
fn drain_batches_in_order_without_loss() {
    let mut buffers = EventBuffers::new();
    buffers.append(9, "e1".to_string());
    assert_eq!(buffers.drain(9), vec!["e1".to_string()]);
    buffers.append(9, "e2".to_string());
    buffers.append(9, "e3".to_string());
    assert_eq!(buffers.drain(9), vec!["e2".to_string(), "e3".to_string()]);
}

#[test]
fn drain_keeps_requests_separate() {
    let mut buffers = EventBuffers::new();
    buffers.append(10, "ten".to_string());
    buffers.append(11, "eleven".to_string());
    assert_eq!(buffers.drain(10), vec!["ten".to_string()]);
    assert_eq!(buffers.drain(11), vec!["eleven".to_string()]);
}

#[test]
fn canceled_ingestion_halts_at_record_boundary() {
    let mut splitter = FrameSplitter::new();
    let mut buffers = EventBuffers::new();
    buffers.cancel(12);
    let chunk = b"data: a\n\ndata: b\n\n";
    let outcome = ingest_chunk(&mut splitter, &mut buffers, 12, chunk);
    assert!(outcome.halted);
    // the first record is nine bytes; nothing after its boundary is consumed
    assert_eq!(outcome.consumed, 9);
    // the event completed before the halt stays available to a final drain
    assert_eq!(buffers.drain(12), vec!["a".to_string()]);
}

#[test]
fn uncanceled_ingestion_consumes_whole_chunks() {
    let mut splitter = FrameSplitter::new();
    let mut buffers = EventBuffers::new();
    let chunk = b"data: a\n\ndata: b\n\n";
    let outcome = ingest_chunk(&mut splitter, &mut buffers, 13, chunk);
    assert!(!outcome.halted);
    assert_eq!(outcome.consumed, chunk.len());
    assert_eq!(buffers.drain(13), vec!["a".to_string(), "b".to_string()]);
}

#[test]
fn cancel_all_marks_every_known_request() {
    let mut buffers = EventBuffers::new();
    buffers.append(20, "x".to_string());
    buffers.append(21, "y".to_string());
    assert!(!buffers.is_canceled(20));
    buffers.cancel_all();
    assert!(buffers.is_canceled(20));
    assert!(buffers.is_canceled(21));
    // a request never seen is not marked
    assert!(!buffers.is_canceled(22));
    // draining creates the queue, so a later cancel_all reaches that id too
    buffers.drain(22);
    buffers.cancel_all();
    assert!(buffers.is_canceled(22));
}
