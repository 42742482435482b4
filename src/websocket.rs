//! WebSocket frame logic: close payloads, outgoing frames and the events
//! handed to the application.
use vstd::prelude::*;
use vstd::utf8::encode_utf8;

verus! {

/// Close code reported when a close frame carries no code.
pub const NO_STATUS_CODE: u16 = 1005;

/// The big-endian integer held in two bytes.
pub open spec fn be_u16(hi: u8, lo: u8) -> u16 {
    (hi as int * 256 + lo as int) as u16
}

/// What a close frame's payload means: its code and its reason's bytes.
pub open spec fn close_of(payload: Seq<u8>) -> (u16, Seq<u8>) {
    if payload.len() < 2 {
        (NO_STATUS_CODE, Seq::<u8>::empty())
    } else {
        (be_u16(payload[0], payload[1]), payload.subrange(2, payload.len() as int))
    }
}

/// Decodes a close frame's payload into its code and the bytes of its reason.
pub fn decode_close(payload: &[u8]) -> (r: (u16, Vec<u8>))
    ensures
        (r.0, r.1@) == close_of(payload@),
{
    if payload.len() < 2 {
        return (NO_STATUS_CODE, Vec::new());
    }
    let code: u16 = payload[0] as u16 * 256 + payload[1] as u16;
    let mut reason: Vec<u8> = Vec::new();
    let mut i: usize = 2;
    while i < payload.len()
        invariant
            2 <= i <= payload.len(),
            reason@ == payload@.subrange(2, i as int),
        decreases payload.len() - i,
    {
        reason.push(payload[i]);
        i = i + 1;
    }
    proof {
        assert(reason@ == payload@.subrange(2, payload@.len() as int));
    }
    (code, reason)
}

/// The kinds of event handed to the application, besides close codes.
#[derive(Clone, Copy, PartialEq, Eq, Structural, Debug)]
pub enum MessageKind {
    Text,
    Binary,
    Pong,
    Error,
    Ping,
}

impl MessageKind {
    pub open spec fn spec_code(self) -> u16 {
        match self {
            MessageKind::Text => 0,
            MessageKind::Binary => 1,
            MessageKind::Pong => 2,
            MessageKind::Error => 3,
            MessageKind::Ping => 4,
        }
    }

    /// The number by which the application knows this kind of event.
    pub fn code(self) -> (r: u16)
        ensures
            r == self.spec_code(),
    {
        match self {
            MessageKind::Text => 0,
            MessageKind::Binary => 1,
            MessageKind::Pong => 2,
            MessageKind::Error => 3,
            MessageKind::Ping => 4,
        }
    }
}

/// The opcode of a frame.
#[derive(Clone, Copy, PartialEq, Eq, Structural, Debug)]
pub enum OpCode {
    Continuation,
    Text,
    Binary,
    Close,
    Ping,
    Pong,
}

/// An event for the application: its kind (a close code for a close frame),
/// whether its payload is text, and the payload.
pub struct WsEvent {
    pub kind: u16,
    pub text: bool,
    pub payload: Vec<u8>,
}

/// The event for a frame, as (kind, is text, payload). Continuation frames
/// are joined to the message they continue before they get here and give no
/// event; pings and pongs are answered below and reach the application with
/// no payload.
pub open spec fn event_of(op: OpCode, payload: Seq<u8>) -> Option<(u16, bool, Seq<u8>)> {
    match op {
        OpCode::Text => Some((MessageKind::Text.spec_code(), true, payload)),
        OpCode::Binary => Some((MessageKind::Binary.spec_code(), false, payload)),
        OpCode::Close => Some((close_of(payload).0, true, close_of(payload).1)),
        OpCode::Ping => Some((MessageKind::Ping.spec_code(), false, Seq::<u8>::empty())),
        OpCode::Pong => Some((MessageKind::Pong.spec_code(), false, Seq::<u8>::empty())),
        OpCode::Continuation => None,
    }
}

/// The event to hand to the application for a frame that was read.
pub fn frame_event(op: OpCode, payload: Vec<u8>) -> (r: Option<WsEvent>)
    ensures
        match r {
            Some(e) => event_of(op, payload@) == Some((e.kind, e.text, e.payload@)),
            None => event_of(op, payload@) is None,
        },
{
    match op {
        OpCode::Text => Some(WsEvent { kind: MessageKind::Text.code(), text: true, payload }),
        OpCode::Binary => Some(WsEvent { kind: MessageKind::Binary.code(), text: false, payload }),
        OpCode::Close => {
            let (code, reason) = decode_close(payload.as_slice());
            Some(WsEvent { kind: code, text: true, payload: reason })
        },
        OpCode::Ping => Some(WsEvent { kind: MessageKind::Ping.code(), text: false, payload: Vec::new() }),
        OpCode::Pong => Some(WsEvent { kind: MessageKind::Pong.code(), text: false, payload: Vec::new() }),
        OpCode::Continuation => None,
    }
}

/// The event for a failed read; its payload is the error's text.
pub fn error_event(message: Vec<u8>) -> (r: WsEvent)
    ensures
        r.kind == MessageKind::Error.spec_code(),
        r.text,
        r.payload@ == message@,
{
    WsEvent { kind: MessageKind::Error.code(), text: true, payload: message }
}

/// A message that the application sends.
pub enum SendValue {
    Text(String),
    Binary(Vec<u8>),
    Pong,
    Ping,
}

/// The frame that carries a message: its opcode and payload.
pub fn message_frame(value: SendValue) -> (r: (OpCode, Vec<u8>))
    ensures
        match value {
            SendValue::Text(t) => r.0 == OpCode::Text && r.1@ == encode_utf8(t@),
            SendValue::Binary(b) => r.0 == OpCode::Binary && r.1@ == b@,
            SendValue::Pong => r.0 == OpCode::Pong && r.1@.len() == 0,
            SendValue::Ping => r.0 == OpCode::Ping && r.1@.len() == 0,
        },
{
    match value {
        SendValue::Text(t) => (OpCode::Text, vstd::slice::slice_to_vec(t.as_str().as_bytes())),
        SendValue::Binary(b) => (OpCode::Binary, b),
        SendValue::Pong => (OpCode::Pong, Vec::new()),
        SendValue::Ping => (OpCode::Ping, Vec::new()),
    }
}

/// The payload of the close frame sent for an optional code and reason: with
/// a reason, the code (no-status when absent) in two big-endian bytes and
/// then the reason; without one, nothing.
pub open spec fn close_payload_spec(code: Option<u16>, reason: Option<Seq<u8>>) -> Seq<u8> {
    match reason {
        Some(r) => {
            let c = match code {
                Some(c) => c,
                None => NO_STATUS_CODE,
            };
            seq![(c / 256) as u8, (c % 256) as u8] + r
        },
        None => Seq::<u8>::empty(),
    }
}

/// The payload of the close frame that the application asks for.
pub fn close_payload(code: Option<u16>, reason: Option<String>) -> (r: Vec<u8>)
    ensures
        r@ == close_payload_spec(
            code,
            match reason {
                Some(s) => Some(encode_utf8(s@)),
                None => None,
            },
        ),
{
    match reason {
        Some(text) => {
            let c: u16 = match code {
                Some(c) => c,
                None => NO_STATUS_CODE,
            };
            let mut out: Vec<u8> = Vec::new();
            out.push((c / 256) as u8);
            out.push((c % 256) as u8);
            let bytes = text.as_str().as_bytes();
            let mut i: usize = 0;
            while i < bytes.len()
                invariant
                    i <= bytes.len(),
                    out@ == seq![(c / 256) as u8, (c % 256) as u8] + bytes@.subrange(0, i as int),
                decreases bytes.len() - i,
            {
                out.push(bytes[i]);
                i = i + 1;
            }
            assert(bytes@.subrange(0, bytes@.len() as int) == bytes@);
            out
        },
        None => Vec::new(),
    }
}

/// Decoding the payload of a close frame built for a code and a reason gives
/// back that code and that reason.
pub proof fn lemma_close_round_trip(code: u16, reason: Seq<u8>)
    ensures
        close_of(close_payload_spec(Some(code), Some(reason))) == (code, reason),
{
    let p = close_payload_spec(Some(code), Some(reason));
    assert(p.subrange(2, p.len() as int) =~= reason);
}

/// Serialises the sends of one connection: a send that must not wait gives
/// up when another send holds the writer.
pub struct SendLock {
    busy: bool,
}

impl SendLock {
    pub closed spec fn is_busy(&self) -> bool {
        self.busy
    }

    pub fn new() -> (r: SendLock)
        ensures
            !r.is_busy(),
    {
        SendLock { busy: false }
    }

    /// Takes the writer if it is free; returns whether it did.
    pub fn try_acquire(&mut self) -> (r: bool)
        ensures
            r == !old(self).is_busy(),
            final(self).is_busy(),
    {
        if self.busy {
            false
        } else {
            self.busy = true;
            true
        }
    }

    /// Gives the writer back.
    pub fn release(&mut self)
        ensures
            !final(self).is_busy(),
    {
        self.busy = false;
    }
}

} // verus!
