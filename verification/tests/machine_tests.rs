use alhc::recv::{ReadStep, ResponseReader};
use alhc::rwbuf::ReadWriteBuffer;
use alhc::send::{BodySender, RequestFlow};

/// Drives a reader over a payload delivered in native-sized chunks and
/// collects everything the caller's reads produce.
fn drain(reader: &mut ResponseReader, payload: &[u8], native_chunk: usize, dest_cap: usize) -> (Vec<u8>, usize) {
    let mut collected = Vec::new();
    let mut offset = 0usize;
    let mut refills = 0usize;
    loop {
        match reader.poll_step(dest_cap) {
            ReadStep::Copied(v) => collected.extend_from_slice(&v),
            ReadStep::Eof => break,
            ReadStep::IssueQueryData | ReadStep::Pending => {
                // The driver performs the native read and deposits its chunk.
                let end = (offset + native_chunk).min(payload.len());
                let chunk: Vec<u8> = payload[offset..end].to_vec();
                if !chunk.is_empty() {
                    refills += 1;
                }
                offset = end;
                reader.deliver_chunk(chunk);
            }
            ReadStep::Failed(e) => panic!("unexpected failure: {:?}", e.code),
        }
    }
    (collected, refills)
}

#[test]
fn response_reassembles_across_refills() {
    // A fixed-length response larger than the transfer buffer arrives over
    // ceil(N / buffer) refill cycles and reassembles byte-identical.
    let n = 5000usize;
    let buf = 2048usize;
    let payload: Vec<u8> = (0..n).map(|i| (i % 251) as u8).collect();
    let mut reader = ResponseReader::new();
    let (collected, refills) = drain(&mut reader, &payload, buf, 512);
    assert_eq!(collected, payload);
    assert_eq!(refills, n.div_ceil(buf));
}

#[test]
fn eof_repeats_and_never_errors() {
    let payload = vec![7u8; 10];
    let mut reader = ResponseReader::new();
    let (collected, _) = drain(&mut reader, &payload, 8, 4);
    assert_eq!(collected, payload);
    for _ in 0..5 {
        match reader.poll_step(64) {
            ReadStep::Eof => {}
            _ => panic!("a drained stream must keep reporting end of stream"),
        }
    }
}

#[test]
fn empty_response_is_just_eof() {
    let mut reader = ResponseReader::new();
    let (collected, refills) = drain(&mut reader, &[], 2048, 512);
    assert!(collected.is_empty());
    assert_eq!(refills, 0);
}

#[test]
fn reader_error_is_terminal() {
    let mut reader = ResponseReader::new();
    match reader.poll_step(16) {
        ReadStep::IssueQueryData => {}
        _ => panic!("first poll must ask the native layer for data"),
    }
    reader.deliver_error(alhc::err_code::resolve_io_error_from_error_code(12002));
    for _ in 0..3 {
        match reader.poll_step(16) {
            ReadStep::Failed(e) => {
                assert_eq!(e.code, 12002);
                assert_eq!(e.kind, alhc::err_code::IoErrorKind::TimedOut);
            }
            _ => panic!("a failed stream must keep surfacing its error"),
        }
    }
}

#[test]
fn body_bytes_all_reach_the_native_layer() {
    // A body of length L, pulled in chunks and accepted by the native layer
    // in its own smaller pieces, is written out completely: sent == L.
    let l = 5000usize;
    let body: Vec<u8> = (0..l).map(|i| (i % 241) as u8).collect();
    let mut sender: BodySender<2048> = BodySender::new(l);
    let mut offset = 0usize;
    let mut native_accepted = Vec::new();
    while !(sender.is_complete()) {
        let room = sender.writable_capacity();
        if offset < l && room > 0 {
            let end = (offset + room.min(700)).min(l);
            sender.accept_chunk(&body[offset..end]);
            offset = end;
        } else if offset >= l {
            sender.source_exhausted();
        }
        // The native write accepts at most 500 bytes per call.
        let pending = sender.pending_slice().to_vec();
        let take = pending.len().min(500);
        native_accepted.extend_from_slice(&pending[..take]);
        sender.mark_written(take);
    }
    assert_eq!(sender.sent(), l);
    assert_eq!(sender.declared(), l);
    assert_eq!(native_accepted, body);
}

#[test]
fn request_flow_walks_its_phases() {
    let body = b"hello body".to_vec();
    let mut flow: RequestFlow<64> = RequestFlow::new(body.len());
    let declared = flow.start();
    assert_eq!(declared, body.len());
    flow.feed_chunk(&body);
    flow.body_source_exhausted();
    assert!(!flow.try_finish_body());
    let pending = flow.pending_body().to_vec();
    assert_eq!(pending, body);
    flow.body_written(pending.len());
    assert!(flow.try_finish_body());
    flow.on_headers(b"HTTP/1.1 200 OK\r\nA: b\r\n".to_vec());
    let (raw, mut reader) = flow.into_response();
    assert_eq!(raw, b"HTTP/1.1 200 OK\r\nA: b\r\n".to_vec());
    match reader.poll_step(16) {
        ReadStep::IssueQueryData => {}
        _ => panic!("a fresh response must start by asking for data"),
    }
}

#[test]
fn bodyless_get_against_large_fixed_response() {
    // The whole exchange over the verified machines: a body-less request
    // resolves after its (empty) body is sent and the head arrives, and a
    // response of N bytes, N larger than the transfer buffer, is reassembled
    // byte-identical across ceil(N / buffer) refill cycles.
    let mut flow: RequestFlow<2048> = RequestFlow::new(0);
    assert_eq!(flow.start(), 0);
    flow.body_source_exhausted();
    assert!(flow.try_finish_body());
    flow.on_headers(b"HTTP/1.1 200 OK\r\nContent-Length: 5000\r\n".to_vec());
    let (raw_head, mut reader) = flow.into_response();
    let n = 5000usize;
    let payload: Vec<u8> = (0..n).map(|i| (i % 199) as u8).collect();
    let (collected, refills) = drain(&mut reader, &payload, 2048, 1024);
    assert_eq!(collected, payload);
    assert_eq!(refills, n.div_ceil(2048));
    let body = alhc::response::ResponseBody::from_raw_head(&raw_head, collected);
    assert_eq!(body.status_code(), 200);
    assert_eq!(body.header("content-length"), Some("5000"));
    assert_eq!(body.data().len(), n);
}

#[test]
fn one_native_write_outstanding_at_a_time() {
    // An event-paced write: once issued, its bytes stay staged until the
    // completion event is consumed, and only then may the next write go out.
    let body = b"abcdefgh".to_vec();
    let mut flow: RequestFlow<16> = RequestFlow::new(body.len());
    flow.start();
    assert!(!flow.has_write_in_flight());
    flow.feed_chunk(&body);
    flow.begin_write(4);
    assert!(flow.has_write_in_flight());
    assert_eq!(flow.pending_body(), b"abcdefgh");
    flow.write_completed();
    assert!(!flow.has_write_in_flight());
    assert_eq!(flow.pending_body(), b"efgh");
    flow.begin_write(4);
    flow.write_completed();
    flow.body_source_exhausted();
    assert!(flow.try_finish_body());
}

#[test]
fn partial_native_writes_keep_the_remainder() {
    let mut sender: BodySender<32> = BodySender::new(6);
    sender.accept_chunk(b"abcdef");
    sender.mark_written(2);
    assert_eq!(sender.pending_slice(), b"cdef");
    sender.mark_written(4);
    assert_eq!(sender.pending_slice(), b"");
    assert_eq!(sender.sent(), 6);
}

#[test]
fn rwbuf_cycles_and_resets() {
    let mut buf: ReadWriteBuffer<8> = ReadWriteBuffer::new();
    assert!(buf.is_empty());
    assert!(!buf.is_readable());
    assert_eq!(buf.get_writable_len(), 8);
    buf.push_bytes(b"abcde");
    assert!(buf.is_readable());
    assert_eq!(buf.get_readable_len(), 5);
    assert_eq!(buf.get_readable_slice(), b"abcde");
    buf.increase_read_len(2);
    assert_eq!(buf.get_readable_slice(), b"cde");
    buf.push_bytes(b"fgh");
    assert!(buf.is_full());
    assert_eq!(buf.get_readable_slice(), b"cdefgh");
    buf.increase_read_len(6);
    // Fully drained: both cursors snap back.
    assert!(buf.is_empty());
    assert_eq!(buf.get_writable_len(), 8);
}

#[test]
fn rwbuf_default_is_empty() {
    let buf: ReadWriteBuffer<16> = Default::default();
    assert!(buf.is_empty());
    assert_eq!(buf.get_writable_len(), 16);
    assert_eq!(buf.get_readable_len(), 0);
}

#[test]
fn rwbuf_increase_write_len_exposes_storage() {
    let mut buf: ReadWriteBuffer<4> = ReadWriteBuffer::new();
    buf.increase_write_len(3);
    assert_eq!(buf.get_readable_len(), 3);
    assert_eq!(buf.get_readable_slice(), &[0, 0, 0]);
}

#[test]
fn handle_teardown_runs_in_order() {
    let mut h = alhc::handle::HandleLifecycle::register();
    assert!(!h.is_closed());
    h.clear_context();
    assert!(!h.is_closed());
    h.close();
    assert!(h.is_closed());
    let mut h2 = alhc::handle::HandleLifecycle::register();
    h2.teardown();
    assert!(h2.is_closed());
}
