use flash::websocket::{
    close_payload, decode_close, error_event, frame_event, message_frame, MessageKind, OpCode,
    SendLock, SendValue,
};

#[test]
fn close_frame_decoding() {
    assert_eq!(decode_close(&[]), (1005, Vec::new()));
    assert_eq!(decode_close(&[0x03]), (1005, Vec::new()));
    assert_eq!(decode_close(&[0x03, 0xE8]), (1000, Vec::new()));
    assert_eq!(decode_close(&[0x03, 0xE8, b'b', b'y', b'e']), (1000, b"bye".to_vec()));
}

#[test]
fn close_payload_round_trip() {
    assert_eq!(close_payload(Some(1000), Some(String::from("bye"))), vec![0x03, 0xE8, b'b', b'y', b'e']);
    assert_eq!(close_payload(None, Some(String::new())), vec![0x03, 0xED]);
    assert_eq!(close_payload(Some(4000), None), Vec::<u8>::new());
    let p = close_payload(Some(4001), Some(String::from("x")));
    assert_eq!(decode_close(&p), (4001, b"x".to_vec()));
}

#[test]
fn frames_become_events() {
    let e = frame_event(OpCode::Text, b"hi".to_vec()).unwrap();
    assert_eq!((e.kind, e.text, e.payload), (MessageKind::Text.code(), true, b"hi".to_vec()));
    let e = frame_event(OpCode::Binary, vec![1, 2]).unwrap();
    assert_eq!((e.kind, e.text, e.payload), (MessageKind::Binary.code(), false, vec![1, 2]));
    let e = frame_event(OpCode::Close, vec![0x03, 0xE8, b'o', b'k']).unwrap();
    assert_eq!((e.kind, e.text, e.payload), (1000, true, b"ok".to_vec()));
    let e = frame_event(OpCode::Close, vec![]).unwrap();
    assert_eq!((e.kind, e.payload), (1005, Vec::new()));
    let e = frame_event(OpCode::Ping, vec![9]).unwrap();
    assert_eq!((e.kind, e.payload), (MessageKind::Ping.code(), Vec::new()));
    let e = frame_event(OpCode::Pong, vec![9]).unwrap();
    assert_eq!((e.kind, e.payload), (MessageKind::Pong.code(), Vec::new()));
    assert!(frame_event(OpCode::Continuation, vec![1]).is_none());
    let e = error_event(b"broken".to_vec());
    assert_eq!((e.kind, e.text, e.payload), (MessageKind::Error.code(), true, b"broken".to_vec()));
}

#[test]
fn messages_become_frames() {
    assert_eq!(message_frame(SendValue::Text(String::from("hé"))), (OpCode::Text, "hé".as_bytes().to_vec()));
    assert_eq!(message_frame(SendValue::Binary(vec![7])), (OpCode::Binary, vec![7]));
    assert_eq!(message_frame(SendValue::Ping), (OpCode::Ping, Vec::new()));
    assert_eq!(message_frame(SendValue::Pong), (OpCode::Pong, Vec::new()));
}

#[test]
fn send_lock_refuses_second_writer() {
    let mut lock = SendLock::new();
    assert!(lock.try_acquire());
    assert!(!lock.try_acquire());
    lock.release();
    assert!(lock.try_acquire());
}
