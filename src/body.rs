//! Request bodies: a decoder that takes the body's bytes from the connection
//! and a one-slot delivery queue that the consumer drains.
use vstd::prelude::*;
use crate::chunked::{decode_chunked, lemma_chunked_split, run_chunked, ChunkedState};
use crate::head::Framing;

verus! {

/// Progress through a body of known length.
#[derive(Clone, Copy, PartialEq, Eq, Structural)]
pub struct FixedDecoder {
    pub content_read: usize,
    pub content_length: usize,
}

/// Where a request body stands: its framing and how much of it was read.
#[derive(Clone, Copy, PartialEq, Eq)]
pub enum Decoder {
    /// A body of `content_length` bytes.
    Fixed(FixedDecoder),
    /// A body in the chunked transfer coding.
    Chunked(()),
    /// No body, or a body that has been read to its end.
    NoBody,
}

impl Decoder {
    /// A fixed body that is still being read lacks at least one byte.
    pub open spec fn wf(self) -> bool {
        self matches Decoder::Fixed(f) ==> f.content_read < f.content_length
    }

    /// A fixed body that lacks nothing is already over.
    pub open spec fn normalized(self) -> Decoder {
        match self {
            Decoder::Fixed(f) => if f.content_read >= f.content_length {
                Decoder::NoBody
            } else {
                self
            },
            _ => self,
        }
    }
}

/// The decoder for a body with this framing.
pub fn decoder_for(f: Framing) -> (r: Decoder)
    ensures
        r == match f {
            Framing::Length(n) => Decoder::Fixed(FixedDecoder { content_read: 0, content_length: n }),
            Framing::Chunked => Decoder::Chunked(()),
            _ => Decoder::NoBody,
        },
{
    match f {
        Framing::Length(n) => Decoder::Fixed(FixedDecoder { content_read: 0, content_length: n }),
        Framing::Chunked => Decoder::Chunked(()),
        _ => Decoder::NoBody,
    }
}

/// What the consumer gets from one read.
pub enum BodyRead {
    /// The next piece of the body.
    Chunk(Vec<u8>),
    /// The body is over.
    End,
    /// Nothing yet: wait for the next step.
    Pending,
    /// The body's framing is broken; the connection must be closed.
    Malformed,
}

/// The model of a read.
pub enum BodyReadView {
    Chunk(Seq<u8>),
    End,
    Pending,
    Malformed,
}

impl View for BodyRead {
    type V = BodyReadView;

    open spec fn view(&self) -> BodyReadView {
        match self {
            BodyRead::Chunk(c) => BodyReadView::Chunk(c@),
            BodyRead::End => BodyReadView::End,
            BodyRead::Pending => BodyReadView::Pending,
            BodyRead::Malformed => BodyReadView::Malformed,
        }
    }
}

/// The model of a body reader: its decoder, the chunk waiting in its slot,
/// and how far a chunked body has been decoded.
pub struct BodyState {
    pub decoder: Decoder,
    pub slot: Option<Seq<u8>>,
    pub chunk: ChunkedState,
}

/// Where a chunked body starts: before the size of its first chunk.
pub open spec fn chunk_start() -> ChunkedState {
    ChunkedState::Size(0, false)
}

/// The least of two integers.
pub open spec fn min(a: int, b: int) -> int {
    if a <= b { a } else { b }
}

/// One step of the decoder on the bytes `input` that the connection has
/// buffered: the new state and how many of those bytes belong to the body.
/// Nothing is taken while the slot is full. A fixed body takes what it still
/// lacks and no more; it is over as soon as all of it has been taken. A
/// chunked body takes bytes up to its end, or up to where its framing
/// breaks, and queues the data found in them.
pub open spec fn step_spec(s: BodyState, input: Seq<u8>) -> (BodyState, nat) {
    match s.decoder {
        Decoder::Fixed(f) => {
            if s.slot is Some || input.len() == 0 {
                (s, 0)
            } else {
                let n = min(input.len() as int, f.content_length - f.content_read);
                let read = f.content_read + n;
                let decoder = if read == f.content_length {
                    Decoder::NoBody
                } else {
                    Decoder::Fixed(FixedDecoder { content_read: read as usize, content_length: f.content_length })
                };
                (BodyState { decoder, slot: Some(input.subrange(0, n)), chunk: s.chunk }, n as nat)
            }
        },
        Decoder::Chunked(_) => {
            if s.slot is Some || input.len() == 0 || s.chunk is Failed {
                (s, 0)
            } else {
                let (st, data, n) = run_chunked(s.chunk, input);
                let decoder = if st is Done { Decoder::NoBody } else { s.decoder };
                (BodyState { decoder, slot: if data.len() > 0 { Some(data) } else { None }, chunk: st }, n)
            }
        },
        Decoder::NoBody => (s, 0),
    }
}

/// One read by the consumer: the chunk in the slot if there is one, else the
/// end once the decoder is done, else the failure of a broken chunked body,
/// else nothing yet.
pub open spec fn read_spec(s: BodyState) -> (BodyState, BodyReadView) {
    match s.slot {
        Some(c) => (BodyState { slot: None, ..s }, BodyReadView::Chunk(c)),
        None => if s.decoder is NoBody {
            (s, BodyReadView::End)
        } else if s.decoder is Chunked && s.chunk is Failed {
            (s, BodyReadView::Malformed)
        } else {
            (s, BodyReadView::Pending)
        },
    }
}

/// The bytes that a read hands over.
pub open spec fn bytes_of(r: BodyReadView) -> Seq<u8> {
    match r {
        BodyReadView::Chunk(c) => c,
        _ => Seq::<u8>::empty(),
    }
}

/// Each of `chunks` offered to the reader in turn, each step followed by one
/// read: the state at the end and the bytes that the reads handed over.
pub open spec fn pump(s: BodyState, chunks: Seq<Seq<u8>>) -> (BodyState, Seq<u8>)
    decreases chunks.len(),
{
    if chunks.len() == 0 {
        (s, Seq::<u8>::empty())
    } else {
        let (s2, r) = read_spec(step_spec(s, chunks[0]).0);
        let rest = pump(s2, chunks.drop_first());
        (rest.0, bytes_of(r) + rest.1)
    }
}

proof fn lemma_pump_done(s: BodyState, chunks: Seq<Seq<u8>>)
    requires
        s.decoder is NoBody,
        s.slot is None,
    ensures
        pump(s, chunks) == (s, Seq::<u8>::empty()),
    decreases chunks.len(),
{
    if chunks.len() > 0 {
        lemma_pump_done(s, chunks.drop_first());
        assert(Seq::<u8>::empty() + Seq::<u8>::empty() =~= Seq::<u8>::empty());
    }
}

proof fn lemma_pump_fixed(s: BodyState, f: FixedDecoder, chunks: Seq<Seq<u8>>)
    requires
        s.decoder == Decoder::Fixed(f),
        s.slot is None,
        f.content_read < f.content_length,
    ensures
        pump(s, chunks).1 == chunks.flatten().take(
            min(chunks.flatten().len() as int, f.content_length - f.content_read),
        ),
        chunks.flatten().len() >= f.content_length - f.content_read ==> {
            &&& pump(s, chunks).0.decoder is NoBody
            &&& pump(s, chunks).0.slot is None
        },
    decreases chunks.len(),
{
    let rem = f.content_length - f.content_read;
    if chunks.len() == 0 {
        assert(chunks.flatten() =~= Seq::<u8>::empty());
        assert(Seq::<u8>::empty().take(0) =~= Seq::<u8>::empty());
    } else {
        let c = chunks[0];
        let rest = chunks.drop_first();
        assert(chunks.flatten() == c + rest.flatten());
        let total = chunks.flatten().len() as int;
        if c.len() == 0 {
            lemma_pump_fixed(s, f, rest);
            assert(c + rest.flatten() =~= rest.flatten());
            assert(Seq::<u8>::empty() + pump(s, rest).1 =~= pump(s, rest).1);
        } else if c.len() >= rem {
            let s1 = BodyState { decoder: Decoder::NoBody, slot: None, chunk: s.chunk };
            lemma_pump_done(s1, rest);
            assert(step_spec(s, c).0 == BodyState { decoder: Decoder::NoBody, slot: Some(c.subrange(0, rem)), chunk: s.chunk });
            assert(pump(s, chunks).1 =~= c.subrange(0, rem) + Seq::<u8>::empty());
            assert(chunks.flatten().take(rem) =~= c.subrange(0, rem));
        } else {
            let f2 = FixedDecoder { content_read: (f.content_read + c.len()) as usize, content_length: f.content_length };
            let s2 = BodyState { decoder: Decoder::Fixed(f2), slot: None, chunk: s.chunk };
            assert(step_spec(s, c).0 == BodyState { decoder: Decoder::Fixed(f2), slot: Some(c.subrange(0, c.len() as int)), chunk: s.chunk });
            assert(c.subrange(0, c.len() as int) =~= c);
            lemma_pump_fixed(s2, f2, rest);
            let m = min(rest.flatten().len() as int, rem - c.len());
            assert(pump(s, chunks).1 == c + rest.flatten().take(m));
            assert(c + rest.flatten().take(m) =~= (c + rest.flatten()).take(c.len() + m));
        }
    }
}

/// A body of `len` bytes, offered in pieces whose total reaches `len`, is
/// handed to the consumer exactly once and in order: the reads give its bytes
/// and nothing of what follows it. The reader is then done: a read gives the
/// end, and a step takes no more bytes, whatever is buffered.
pub proof fn lemma_fixed_body_exact(len: usize, chunks: Seq<Seq<u8>>)
    requires
        chunks.flatten().len() >= len,
    ensures
        ({
            let fresh = BodyState {
                decoder: Decoder::Fixed(FixedDecoder { content_read: 0, content_length: len }).normalized(),
                slot: None,
                chunk: chunk_start(),
            };
            let (done, out) = pump(fresh, chunks);
            &&& out == chunks.flatten().take(len as int)
            &&& read_spec(done).1 == BodyReadView::End
            &&& forall|extra: Seq<u8>| #[trigger] step_spec(done, extra) == (done, 0nat)
        }),
{
    let f = FixedDecoder { content_read: 0, content_length: len };
    if len == 0 {
        let fresh = BodyState { decoder: Decoder::NoBody, slot: None, chunk: chunk_start() };
        lemma_pump_done(fresh, chunks);
        assert(chunks.flatten().take(0) =~= Seq::<u8>::empty());
    } else {
        let fresh = BodyState { decoder: Decoder::Fixed(f), slot: None, chunk: chunk_start() };
        lemma_pump_fixed(fresh, f, chunks);
    }
}

/// Reads a request body from the bytes of its connection.
pub struct BodyReader {
    decoder: Decoder,
    keep_alive: bool,
    slot: Option<Vec<u8>>,
    chunk: ChunkedState,
}

impl View for BodyReader {
    type V = BodyState;

    closed spec fn view(&self) -> BodyState {
        BodyState {
            decoder: self.decoder,
            slot: match self.slot {
                Some(c) => Some(c@),
                None => None,
            },
            chunk: self.chunk,
        }
    }
}

impl BodyReader {
    pub closed spec fn spec_keep_alive(&self) -> bool {
        self.keep_alive
    }

    /// A reader that has taken no bytes yet.
    pub fn new(keep_alive: bool, decoder: Decoder) -> (r: BodyReader)
        requires
            decoder matches Decoder::Fixed(f) ==> f.content_read <= f.content_length,
        ensures
            r@ == (BodyState { decoder: decoder.normalized(), slot: None, chunk: chunk_start() }),
            r@.decoder.wf(),
            r.spec_keep_alive() == keep_alive,
    {
        let decoder = match decoder {
            Decoder::Fixed(f) => if f.content_read >= f.content_length {
                Decoder::NoBody
            } else {
                decoder
            },
            _ => decoder,
        };
        BodyReader { decoder, keep_alive, slot: None, chunk: ChunkedState::Size(0, false) }
    }

    pub fn keep_alive(&self) -> (r: bool)
        ensures
            r == self.spec_keep_alive(),
    {
        self.keep_alive
    }

    pub fn decoder(&self) -> (r: Decoder)
        ensures
            r == self@.decoder,
    {
        self.decoder
    }

    /// Takes from `input` the bytes that belong to the body and queues them
    /// for the consumer; returns how many it took. What it leaves belongs to
    /// whatever follows the body on the connection.
    pub fn step(&mut self, input: &[u8]) -> (n: usize)
        requires
            old(self)@.decoder.wf(),
        ensures
            final(self)@.decoder.wf(),
            (final(self)@, n as nat) == step_spec(old(self)@, input@),
            n <= input@.len(),
            final(self).spec_keep_alive() == old(self).spec_keep_alive(),
    {
        match self.decoder {
            Decoder::Fixed(f) => {
                if self.slot.is_some() || input.len() == 0 {
                    return 0;
                }
                let lack = f.content_length - f.content_read;
                let n = if input.len() <= lack { input.len() } else { lack };
                let mut chunk: Vec<u8> = Vec::new();
                let mut i: usize = 0;
                while i < n
                    invariant
                        n <= input.len(),
                        i <= n,
                        chunk@ == input@.subrange(0, i as int),
                    decreases n - i,
                {
                    chunk.push(input[i]);
                    i = i + 1;
                }
                let read = f.content_read + n;
                self.decoder = if read == f.content_length {
                    Decoder::NoBody
                } else {
                    Decoder::Fixed(FixedDecoder { content_read: read, content_length: f.content_length })
                };
                self.slot = Some(chunk);
                n
            },
            Decoder::Chunked(_) => {
                if self.slot.is_some() || input.len() == 0 || matches!(self.chunk, ChunkedState::Failed) {
                    return 0;
                }
                let (st, data, n) = decode_chunked(self.chunk, input);
                proof {
                    lemma_chunked_split(self.chunk, input@, Seq::<u8>::empty());
                }
                if matches!(st, ChunkedState::Done) {
                    self.decoder = Decoder::NoBody;
                }
                if data.len() > 0 {
                    self.slot = Some(data);
                }
                self.chunk = st;
                n
            },
            Decoder::NoBody => 0,
        }
    }

    /// Hands the consumer the next chunk, the end of the body, or nothing yet.
    pub fn read(&mut self) -> (r: BodyRead)
        ensures
            (final(self)@, r@) == read_spec(old(self)@),
            final(self).spec_keep_alive() == old(self).spec_keep_alive(),
    {
        match self.slot.take() {
            Some(c) => BodyRead::Chunk(c),
            None => if matches!(self.decoder, Decoder::NoBody) {
                BodyRead::End
            } else if matches!(self.decoder, Decoder::Chunked(_)) && matches!(self.chunk, ChunkedState::Failed) {
                BodyRead::Malformed
            } else {
                BodyRead::Pending
            },
        }
    }
}

} // verus!
