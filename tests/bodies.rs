use flash::body::{BodyRead, BodyReader, Decoder, FixedDecoder};
use flash::response::{
    CompletionHandle, CompletionTable, Frame, ResponseBytes, ResponseBytesInner, SourceAction, SourcePoll,
    RESOURCE_READ_SIZE,
};

fn fixed(len: usize) -> Decoder {
    Decoder::Fixed(FixedDecoder { content_read: 0, content_length: len })
}

fn chunk(r: BodyRead) -> Vec<u8> {
    match r {
        BodyRead::Chunk(c) => c,
        _ => panic!("expected a chunk"),
    }
}

#[test]
fn fixed_body_delivered_once_then_end() {
    let body = b"hello world";
    let next_request = b"GET / HTTP/1.1\r\n\r\n";
    let mut stream = body.to_vec();
    stream.extend_from_slice(next_request);
    for size in 1..stream.len() {
        let mut reader = BodyReader::new(true, fixed(body.len()));
        let mut got = Vec::new();
        let mut left_over = Vec::new();
        for piece in stream.chunks(size) {
            let n = reader.step(piece);
            left_over.extend_from_slice(&piece[n..]);
            match reader.read() {
                BodyRead::Chunk(c) => got.extend(c),
                BodyRead::End | BodyRead::Pending => {}
                BodyRead::Malformed => panic!("fixed bodies have no framing to break"),
            }
        }
        assert_eq!(got, body.to_vec());
        assert_eq!(left_over, next_request.to_vec());
        assert!(matches!(reader.read(), BodyRead::End));
        assert_eq!(reader.step(b"more"), 0);
        assert!(matches!(reader.read(), BodyRead::End));
    }
}

#[test]
fn fixed_body_backpressure() {
    let mut reader = BodyReader::new(false, fixed(6));
    assert!(!reader.keep_alive());
    assert!(matches!(reader.read(), BodyRead::Pending));
    assert_eq!(reader.step(b"abc"), 3);
    assert_eq!(reader.step(b"def"), 0);
    assert_eq!(chunk(reader.read()), b"abc".to_vec());
    assert!(matches!(reader.read(), BodyRead::Pending));
    assert_eq!(reader.step(b"defXYZ"), 3);
    assert!(reader.decoder() == Decoder::NoBody);
    assert_eq!(chunk(reader.read()), b"def".to_vec());
    assert!(matches!(reader.read(), BodyRead::End));
}

#[test]
fn empty_and_absent_bodies_end_at_once() {
    let mut reader = BodyReader::new(true, fixed(0));
    assert!(matches!(reader.read(), BodyRead::End));
    assert_eq!(reader.step(b"GET"), 0);
    let mut reader = BodyReader::new(true, Decoder::NoBody);
    assert!(matches!(reader.read(), BodyRead::End));
}

#[test]
fn chunked_body_decoded_across_splits() {
    let body: &[u8] = b"5\r\nhello\r\n7;name=value\r\n, world\r\n0\r\nTrailer: x\r\n\r\n";
    let next_request: &[u8] = b"GET / HTTP/1.1\r\n\r\n";
    let mut stream = body.to_vec();
    stream.extend_from_slice(next_request);
    for size in 1..stream.len() {
        let mut reader = BodyReader::new(true, Decoder::Chunked(()));
        let mut got = Vec::new();
        let mut left_over = Vec::new();
        for piece in stream.chunks(size) {
            let n = reader.step(piece);
            left_over.extend_from_slice(&piece[n..]);
            if let BodyRead::Chunk(c) = reader.read() {
                got.extend(c);
            }
        }
        assert_eq!(got, b"hello, world".to_vec());
        assert_eq!(left_over, next_request.to_vec());
        assert!(matches!(reader.read(), BodyRead::End));
        assert!(reader.decoder() == Decoder::NoBody);
    }
}

#[test]
fn chunked_body_partial_then_rest() {
    let mut reader = BodyReader::new(true, Decoder::Chunked(()));
    assert_eq!(reader.step(b"A\r\n0123"), 7);
    assert_eq!(chunk(reader.read()), b"0123".to_vec());
    assert!(matches!(reader.read(), BodyRead::Pending));
    assert_eq!(reader.step(b"456789\r\n0\r\n\r\nX"), 13);
    assert_eq!(chunk(reader.read()), b"456789".to_vec());
    assert!(matches!(reader.read(), BodyRead::End));
}

#[test]
fn chunked_body_broken_framing() {
    for bad in [&b"xyz\r\n"[..], &b"\r\n"[..], &b"3\r\nabcX"[..], &b"3\nabc"[..], &b"FFFFFFFFFFFFFFFFF\r\n"[..]] {
        let mut reader = BodyReader::new(true, Decoder::Chunked(()));
        reader.step(bad);
        let mut r = reader.read();
        if let BodyRead::Chunk(_) = r {
            r = reader.read();
        }
        assert!(matches!(r, BodyRead::Malformed));
        assert_eq!(reader.step(b"0\r\n\r\n"), 0);
        assert!(matches!(reader.read(), BodyRead::Malformed));
    }
}

#[test]
fn empty_response_dropped_reports_success() {
    let mut table = CompletionTable::new();
    let mut body = ResponseBytes::new(&mut table);
    let early = body.completion_handle();
    assert_eq!(early.poll(&mut table), None);
    assert_eq!(body.release(&mut table), 1);
    assert_eq!(early.poll(&mut table), Some(true));
    assert_eq!(body.completion_handle().poll(&mut table), Some(true));
}

#[test]
fn resource_response_dropped_mid_stream_reports_failure() {
    let mut table = CompletionTable::new();
    let mut body = ResponseBytes::new(&mut table);
    let early = body.completion_handle();
    body.initialize(ResponseBytesInner::Resource(true, 4));
    let out = body.poll_frame(&mut table, SourcePoll::Data(vec![1, 2, 3]));
    assert!(matches!(out.frame, Frame::Data(ref d) if d == &vec![1, 2, 3]));
    assert!(out.action == SourceAction::Read(4, RESOURCE_READ_SIZE));
    assert!(!early.is_complete(&table));
    body.release(&mut table);
    assert_eq!(early.poll(&mut table), Some(false));
}

#[test]
fn resource_dropped_before_any_poll_reports_failure() {
    let mut table = CompletionTable::new();
    let mut body = ResponseBytes::new(&mut table);
    let h = body.completion_handle();
    body.initialize(ResponseBytesInner::Resource(false, 1));
    body.release(&mut table);
    assert_eq!(h.poll(&mut table), Some(false));
}

#[test]
fn resource_response_ends_on_empty_read() {
    let mut table = CompletionTable::new();
    let mut body = ResponseBytes::new(&mut table);
    let h = body.completion_handle();
    body.initialize(ResponseBytesInner::Resource(true, 9));
    assert_eq!(body.size_hint(), None);
    let out = body.poll_frame(&mut table, SourcePoll::Pending);
    assert!(matches!(out.frame, Frame::Pending));
    let out = body.poll_frame(&mut table, SourcePoll::Data(Vec::new()));
    assert!(matches!(out.frame, Frame::End));
    assert!(out.action == SourceAction::Close(9));
    assert!(body.is_end_stream());
    assert_eq!(body.release(&mut table), 0);
    assert_eq!(h.poll(&mut table), Some(true));

    let mut body = ResponseBytes::new(&mut table);
    let h = body.completion_handle();
    body.initialize(ResponseBytesInner::Resource(false, 9));
    let out = body.poll_frame(&mut table, SourcePoll::Data(Vec::new()));
    assert!(out.action == SourceAction::Nothing);
    let out = body.poll_frame(&mut table, SourcePoll::Failed);
    assert!(matches!(out.frame, Frame::End));
    assert_eq!(h.poll(&mut table), Some(true));
}

#[test]
fn resource_read_error_fails_body() {
    let mut table = CompletionTable::new();
    let mut body = ResponseBytes::new(&mut table);
    body.initialize(ResponseBytesInner::Resource(false, 1));
    let out = body.poll_frame(&mut table, SourcePoll::Failed);
    assert!(matches!(out.frame, Frame::Error));
    assert_eq!(body.completion_handle().poll(&mut table), Some(false));
}

#[test]
fn bytes_response_sent_in_one_piece() {
    let mut table = CompletionTable::new();
    let mut body = ResponseBytes::new(&mut table);
    let h = body.completion_handle();
    body.initialize(ResponseBytesInner::Bytes(b"hello".to_vec()));
    assert_eq!(body.size_hint(), Some(5));
    assert!(!body.is_end_stream());
    let out = body.poll_frame(&mut table, SourcePoll::Pending);
    assert!(matches!(out.frame, Frame::Data(ref d) if d == b"hello"));
    assert_eq!(h.poll(&mut table), Some(true));
    assert!(matches!(body.poll_frame(&mut table, SourcePoll::Pending).frame, Frame::End));
    assert_eq!(body.size_hint(), Some(0));
    body.release(&mut table);
    assert_eq!(h.poll(&mut table), Some(true));
}

#[test]
fn pushed_response_ends_when_channel_closes() {
    let mut table = CompletionTable::new();
    let mut body = ResponseBytes::new(&mut table);
    body.initialize(ResponseBytesInner::V8Stream(2));
    let out = body.poll_frame(&mut table, SourcePoll::Data(b"a".to_vec()));
    assert!(matches!(out.frame, Frame::Data(ref d) if d == b"a"));
    assert!(!body.completion_handle().is_complete(&table));
    let out = body.poll_frame(&mut table, SourcePoll::Closed);
    assert!(matches!(out.frame, Frame::End));
    assert_eq!(body.completion_handle().poll(&mut table), Some(true));
}

#[test]
fn early_and_late_waiters_see_same_outcome() {
    for success in [true, false] {
        let mut table = CompletionTable::new();
        let handle = CompletionHandle::new(&mut table);
        let other = CompletionHandle::new(&mut table);
        let early_a = handle.clone();
        let early_b = handle;
        assert_eq!(early_a.poll(&mut table), None);
        assert_eq!(early_b.poll(&mut table), None);
        assert_eq!(handle.complete(&mut table, success), 2);
        assert_eq!(early_a.poll(&mut table), Some(success));
        assert_eq!(early_b.poll(&mut table), Some(success));
        let late = handle.clone();
        assert_eq!(late.poll(&mut table), Some(success));
        assert!(!other.is_complete(&table));
        assert_eq!(other.complete(&mut table, true), 0);
    }
}

#[test]
fn inner_lengths() {
    assert_eq!(ResponseBytesInner::Empty.len(), Some(0));
    assert_eq!(ResponseBytesInner::Done.len(), Some(0));
    assert_eq!(ResponseBytesInner::Bytes(vec![0; 7]).len(), Some(7));
    assert_eq!(ResponseBytesInner::V8Stream(0).len(), None);
}
