use flash::chunked::{decode_chunked, step_byte, ChunkedState};

#[test]
fn decode_whole_chunked_body() {
    let (st, data, n) = decode_chunked(ChunkedState::Size(0, false), b"3\r\nabc\r\n0\r\n\r\nrest");
    assert_eq!(st, ChunkedState::Done);
    assert_eq!(data, b"abc".to_vec());
    assert_eq!(n, 13);
}

#[test]
fn size_digits_accumulate() {
    let (st, _) = step_byte(ChunkedState::Size(0, false), b'1');
    assert_eq!(st, ChunkedState::Size(1, true));
    let (st, _) = step_byte(st, b'f');
    assert_eq!(st, ChunkedState::Size(31, true));
    let (st, _) = step_byte(st, b'B');
    assert_eq!(st, ChunkedState::Size(507, true));
    let (st, data) = step_byte(ChunkedState::Data(2), b'z');
    assert_eq!((st, data), (ChunkedState::Data(1), true));
    let (st, data) = step_byte(ChunkedState::Data(1), b'z');
    assert_eq!((st, data), (ChunkedState::DataCr, true));
    assert_eq!(step_byte(ChunkedState::Size(0, false), b'\r').0, ChunkedState::Failed);
    assert_eq!(step_byte(ChunkedState::Done, b'1'), (ChunkedState::Done, false));
}

#[test]
fn decode_large_chunk_sizes() {
    let data = vec![7u8; 300];
    let mut enc = b"12c\r\n".to_vec();
    enc.extend_from_slice(&data);
    enc.extend_from_slice(b"\r\n1\r\nz\r\n0\r\n\r\nnext");
    let (st, out, n) = decode_chunked(ChunkedState::Size(0, false), &enc);
    assert_eq!(st, ChunkedState::Done);
    let mut expected = data.clone();
    expected.push(b'z');
    assert_eq!(out, expected);
    assert_eq!(n, enc.len() - 4);
}
