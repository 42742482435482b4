//! The per-connection request loop: bytes come in, request heads go out in
//! arrival order, and the connection says when it has to stop.
use vstd::prelude::*;
use crate::body::{step_spec, BodyReader, BodyState};
use crate::head::{
    asks_upgrade, framing, framing_of, head_asks_upgrade, head_parse, parse_request_head, Framing, HeadParse,
    HeadView, ParseStatus, RequestHead, HEADER_SLOTS,
};

verus! {

/// How a run of parsing ended.
#[derive(Clone, Copy, PartialEq, Eq, Structural)]
pub enum Stop {
    /// The bytes left over do not form a whole head yet.
    Incomplete,
    /// The bytes left over are not a request head.
    Malformed,
    /// The last head asks to switch protocols: the bytes after it may not be
    /// HTTP at all, so parsing waits for the dispatcher's decision.
    Upgrade,
    /// The last head announces a body: the bytes after it are the body's.
    Body,
}

/// Whether parsing goes on after this head: it has no body and does not ask
/// to switch protocols.
pub open spec fn continues_after(h: HeadView) -> bool {
    framing_of(h) == Framing::Empty && !asks_upgrade(h)
}

/// The heads found at the start of `buf`, one after the other: the heads, the
/// bytes left over, and why parsing stopped there. A head whose body framing
/// makes no sense counts as malformed and is not handed out.
pub open spec fn drain(buf: Seq<u8>) -> (Seq<HeadView>, Seq<u8>, Stop)
    decreases buf.len(),
{
    match head_parse(buf, HEADER_SLOTS as nat) {
        HeadParse::Complete(h) => {
            if 0 < h.len <= buf.len() {
                let rest = buf.subrange(h.len as int, buf.len() as int);
                if framing_of(h) == Framing::Invalid {
                    (Seq::<HeadView>::empty(), buf, Stop::Malformed)
                } else if asks_upgrade(h) {
                    (seq![h], rest, Stop::Upgrade)
                } else if framing_of(h) != Framing::Empty {
                    (seq![h], rest, Stop::Body)
                } else {
                    let next = drain(rest);
                    (seq![h] + next.0, next.1, next.2)
                }
            } else {
                (Seq::<HeadView>::empty(), buf, Stop::Malformed)
            }
        },
        HeadParse::Incomplete => (Seq::<HeadView>::empty(), buf, Stop::Incomplete),
        HeadParse::Malformed => (Seq::<HeadView>::empty(), buf, Stop::Malformed),
    }
}

/// The parser decides a head on the bytes it has seen: a complete head ends
/// inside those bytes, and bytes that arrive after a complete or malformed
/// head do not change the verdict.
pub open spec fn decided_on_prefix() -> bool {
    forall|b: Seq<u8>, x: Seq<u8>|
        {
            let p = head_parse(b, HEADER_SLOTS as nat);
            &&& (p matches HeadParse::Complete(h) ==> 0 < h.len <= b.len())
            &&& (p is Complete || p is Malformed) ==> #[trigger] head_parse(b + x, HEADER_SLOTS as nat) == p
        }
}

/// Bytes that hold no complete head and nothing malformed, as a connection
/// keeps them between reads.
pub open spec fn settled(pending: Seq<u8>) -> bool {
    drain(pending) == (Seq::<HeadView>::empty(), pending, Stop::Incomplete)
}

proof fn lemma_drain_rest_settled(s: Seq<u8>)
    ensures
        drain(s).2 == Stop::Incomplete ==> settled(drain(s).1),
    decreases s.len(),
{
    if let HeadParse::Complete(h) = head_parse(s, HEADER_SLOTS as nat) {
        if 0 < h.len <= s.len() && continues_after(h) {
            lemma_drain_rest_settled(s.subrange(h.len as int, s.len() as int));
        }
    }
}

/// Successive reads of `chunks` on a connection holding `pending`: the heads
/// handed out, the bytes kept, and why it stopped.
pub open spec fn feed(pending: Seq<u8>, chunks: Seq<Seq<u8>>) -> (Seq<HeadView>, Seq<u8>, Stop)
    decreases chunks.len(),
{
    if chunks.len() == 0 {
        (Seq::<HeadView>::empty(), pending, Stop::Incomplete)
    } else {
        let d = drain(pending + chunks[0]);
        if d.2 != Stop::Incomplete {
            d
        } else {
            let r = feed(d.1, chunks.drop_first());
            (d.0 + r.0, r.1, r.2)
        }
    }
}

proof fn lemma_drain_append(s1: Seq<u8>, s2: Seq<u8>)
    requires
        decided_on_prefix(),
    ensures
        drain(s1).2 == Stop::Incomplete ==> drain(s1 + s2) == ({
            let d = drain(drain(s1).1 + s2);
            (drain(s1).0 + d.0, d.1, d.2)
        }),
        drain(s1).2 != Stop::Incomplete ==> drain(s1 + s2) == (drain(s1).0, drain(s1).1 + s2, drain(s1).2),
    decreases s1.len(),
{
    let p = head_parse(s1, HEADER_SLOTS as nat);
    match p {
        HeadParse::Complete(h) => {
            assert(head_parse(s1 + s2, HEADER_SLOTS as nat) == p);
            let t = s1.subrange(h.len as int, s1.len() as int);
            assert((s1 + s2).subrange(h.len as int, (s1 + s2).len() as int) =~= t + s2);
            if continues_after(h) {
                lemma_drain_append(t, s2);
                if drain(t).2 == Stop::Incomplete {
                    let d = drain(drain(t).1 + s2);
                    assert(seq![h] + (drain(t).0 + d.0) =~= (seq![h] + drain(t).0) + d.0);
                }
            }
        },
        HeadParse::Incomplete => {
            assert(Seq::<HeadView>::empty() + drain(s1 + s2).0 =~= drain(s1 + s2).0);
        },
        HeadParse::Malformed => {
            assert(head_parse(s1 + s2, HEADER_SLOTS as nat) == p);
        },
    }
}

/// However a byte stream is split into reads, the connection hands out the
/// same heads in the same order and stops for the same reason as it would
/// on the whole stream read at once; while it waits for more bytes it keeps
/// the same bytes. This holds for a parser that decides each head on the
/// bytes it has seen.
pub proof fn lemma_split_invariance(pending: Seq<u8>, chunks: Seq<Seq<u8>>)
    requires
        decided_on_prefix(),
        settled(pending),
    ensures
        feed(pending, chunks).0 == drain(pending + chunks.flatten()).0,
        feed(pending, chunks).2 == drain(pending + chunks.flatten()).2,
        feed(pending, chunks).2 == Stop::Incomplete ==> feed(pending, chunks).1 == drain(
            pending + chunks.flatten(),
        ).1,
    decreases chunks.len(),
{
    if chunks.len() == 0 {
        assert(pending + chunks.flatten() =~= pending);
    } else {
        let c = chunks[0];
        let rest = chunks.drop_first();
        assert(chunks.flatten() == c + rest.flatten());
        assert(pending + chunks.flatten() =~= (pending + c) + rest.flatten());
        lemma_drain_append(pending + c, rest.flatten());
        let d = drain(pending + c);
        if d.2 == Stop::Incomplete {
            lemma_drain_rest_settled(pending + c);
            lemma_split_invariance(d.1, rest);
        }
    }
}

/// Two requests that arrive back to back in one read are both handed out,
/// first the first, then the second, with nothing kept: given that the
/// parser finds the first head at the start of both and the second head
/// alone, each spanning exactly its request and announcing no body.
pub proof fn lemma_pipelined_pair(a: Seq<u8>, b: Seq<u8>, h1: HeadView, h2: HeadView)
    requires
        head_parse(a + b, HEADER_SLOTS as nat) == HeadParse::Complete(h1),
        h1.len == a.len() > 0,
        continues_after(h1),
        head_parse(b, HEADER_SLOTS as nat) == HeadParse::Complete(h2),
        h2.len == b.len() > 0,
        continues_after(h2),
        head_parse(Seq::<u8>::empty(), HEADER_SLOTS as nat) == HeadParse::Incomplete,
    ensures
        drain(a + b) == (seq![h1, h2], Seq::<u8>::empty(), Stop::Incomplete),
{
    let s = a + b;
    assert(s.subrange(a.len() as int, s.len() as int) =~= b);
    assert(b.subrange(b.len() as int, b.len() as int) =~= Seq::<u8>::empty());
    let e = Seq::<u8>::empty();
    assert(drain(e) == (Seq::<HeadView>::empty(), e, Stop::Incomplete));
    assert(drain(b) == (seq![h2] + Seq::<HeadView>::empty(), e, Stop::Incomplete));
    assert(seq![h2] + Seq::<HeadView>::empty() =~= seq![h2]);
    assert(drain(s) == (seq![h1] + seq![h2], e, Stop::Incomplete));
    assert(seq![h1] + seq![h2] =~= seq![h1, h2]);
}

/// Why a connection stops, if it does.
#[derive(PartialEq, Eq, Structural)]
pub enum ConnEnd {
    /// The connection stays open for more requests.
    Open,
    /// The peer closed its side: a read gave no bytes.
    PeerClosed,
    /// The bytes read do not form a request head.
    Malformed,
    /// An unfinished head grew past the connection's limit.
    HeadTooLarge,
    /// The last head asks to switch protocols. Parsing waits until the
    /// dispatcher takes the connection over or resumes it.
    Upgrade,
    /// The last head announces a body. Parsing waits until the body has been
    /// read through `feed_body` and the connection is resumed.
    Body,
}

/// How a read ends, given why parsing stopped and how many bytes are left.
pub open spec fn end_of(stop: Stop, left: nat, max_head: nat) -> ConnEnd {
    match stop {
        Stop::Malformed => ConnEnd::Malformed,
        Stop::Upgrade => ConnEnd::Upgrade,
        Stop::Body => ConnEnd::Body,
        Stop::Incomplete => if left > max_head {
            ConnEnd::HeadTooLarge
        } else {
            ConnEnd::Open
        },
    }
}

/// What one read on a connection produced.
pub struct ReadOutcome {
    /// The request heads completed by this read, in arrival order.
    pub heads: Vec<RequestHead>,
    pub end: ConnEnd,
}

/// The state of one connection between reads.
pub struct Connection {
    /// Bytes read but not yet part of a complete head.
    pending: Vec<u8>,
    /// The largest unfinished head that is kept waiting for more bytes.
    max_head: usize,
    closed: bool,
    /// Parsing waits for the dispatcher's decision on an upgrade.
    paused: bool,
}

impl Connection {
    pub closed spec fn pending_bytes(&self) -> Seq<u8> {
        self.pending@
    }

    pub closed spec fn max_head_len(&self) -> nat {
        self.max_head as nat
    }

    pub closed spec fn is_closed(&self) -> bool {
        self.closed
    }

    pub closed spec fn is_paused(&self) -> bool {
        self.paused
    }

    /// A fresh connection that holds no bytes yet.
    pub fn new(max_head: usize) -> (r: Connection)
        ensures
            r.pending_bytes() == Seq::<u8>::empty(),
            r.max_head_len() == max_head,
            !r.is_closed(),
            !r.is_paused(),
    {
        Connection { pending: Vec::new(), max_head, closed: false, paused: false }
    }

    /// Gives up the connection, handing over the bytes read past the last
    /// head, which belong to whatever protocol takes the connection over.
    pub fn into_pending(self) -> (r: Vec<u8>)
        ensures
            r@ == self.pending_bytes(),
    {
        self.pending
    }

    pub fn is_open(&self) -> (r: bool)
        ensures
            r == !self.is_closed(),
    {
        !self.closed
    }

    /// Hands out every complete head at the start of the kept bytes.
    fn drain_pending(&mut self) -> (r: ReadOutcome)
        requires
            !old(self).is_closed(),
            !old(self).is_paused(),
        ensures
            final(self).max_head_len() == old(self).max_head_len(),
            ({
                let d = drain(old(self).pending_bytes());
                &&& r.heads.deep_view() == d.0
                &&& final(self).pending_bytes() == d.1
                &&& r.end == end_of(d.2, d.1.len(), old(self).max_head_len())
                &&& final(self).is_closed() == (r.end == ConnEnd::Malformed || r.end == ConnEnd::HeadTooLarge)
                &&& final(self).is_paused() == (r.end == ConnEnd::Upgrade || r.end == ConnEnd::Body)
            }),
    {
        let ghost whole = self.pending@;
        let mut heads: Vec<RequestHead> = Vec::new();
        let mut stop = Stop::Incomplete;
        loop
            invariant_except_break
                stop == Stop::Incomplete,
                drain(whole) == ({
                    let d = drain(self.pending@);
                    (heads.deep_view() + d.0, d.1, d.2)
                }),
            invariant
                self.max_head == old(self).max_head,
                self.closed == old(self).closed,
                self.paused == old(self).paused,
            ensures
                drain(whole) == (heads.deep_view(), self.pending@, stop),
            decreases self.pending@.len(),
        {
            let status = parse_request_head(self.pending.as_slice());
            match status {
                ParseStatus::Complete(h) => {
                    let ghost before_heads = heads.deep_view();
                    let ghost hv = h@;
                    let fr = framing(&h);
                    if matches!(fr, Framing::Invalid) {
                        proof {
                            assert(heads.deep_view() + Seq::<HeadView>::empty() =~= heads.deep_view());
                        }
                        stop = Stop::Malformed;
                        break;
                    }
                    let upgrade = head_asks_upgrade(&h);
                    let rest = self.pending.split_off(h.len);
                    self.pending = rest;
                    heads.push(h);
                    proof {
                        assert(heads.deep_view() =~= before_heads + seq![hv]);
                    }
                    if upgrade {
                        stop = Stop::Upgrade;
                        break;
                    }
                    if !matches!(fr, Framing::Empty) {
                        stop = Stop::Body;
                        break;
                    }
                    proof {
                        let d = drain(self.pending@);
                        assert(before_heads + (seq![hv] + d.0) =~= heads.deep_view() + d.0);
                    }
                },
                ParseStatus::Incomplete => {
                    proof {
                        assert(heads.deep_view() + Seq::<HeadView>::empty() =~= heads.deep_view());
                    }
                    break;
                },
                ParseStatus::Malformed => {
                    proof {
                        assert(heads.deep_view() + Seq::<HeadView>::empty() =~= heads.deep_view());
                    }
                    stop = Stop::Malformed;
                    break;
                },
            }
        }
        let end = match stop {
            Stop::Malformed => ConnEnd::Malformed,
            Stop::Upgrade => ConnEnd::Upgrade,
            Stop::Body => ConnEnd::Body,
            Stop::Incomplete => if self.pending.len() > self.max_head {
                ConnEnd::HeadTooLarge
            } else {
                ConnEnd::Open
            },
        };
        self.closed = matches!(end, ConnEnd::Malformed | ConnEnd::HeadTooLarge);
        self.paused = matches!(end, ConnEnd::Upgrade | ConnEnd::Body);
        ReadOutcome { heads, end }
    }

    /// Takes the bytes of one read. An empty read means that the peer closed
    /// the connection. Otherwise the bytes join those kept from earlier reads
    /// and every complete head found there is handed out, in order, up to one
    /// that asks to switch protocols; what follows the last head is kept.
    pub fn on_read(&mut self, data: &[u8]) -> (r: ReadOutcome)
        requires
            !old(self).is_closed(),
            !old(self).is_paused(),
            old(self).pending_bytes().len() + data@.len() <= usize::MAX,
        ensures
            final(self).max_head_len() == old(self).max_head_len(),
            data@.len() == 0 ==> {
                &&& r.heads@.len() == 0
                &&& r.end == ConnEnd::PeerClosed
                &&& final(self).is_closed()
                &&& !final(self).is_paused()
                &&& final(self).pending_bytes() == old(self).pending_bytes()
            },
            data@.len() > 0 ==> {
                let d = drain(old(self).pending_bytes() + data@);
                &&& r.heads.deep_view() == d.0
                &&& final(self).pending_bytes() == d.1
                &&& r.end == end_of(d.2, d.1.len(), old(self).max_head_len())
                &&& final(self).is_closed() == (r.end == ConnEnd::Malformed || r.end == ConnEnd::HeadTooLarge)
                &&& final(self).is_paused() == (r.end == ConnEnd::Upgrade || r.end == ConnEnd::Body)
                &&& r.end == ConnEnd::Open ==> settled(final(self).pending_bytes())
            },
    {
        if data.len() == 0 {
            self.closed = true;
            return ReadOutcome { heads: Vec::new(), end: ConnEnd::PeerClosed };
        }
        let mut i: usize = 0;
        while i < data.len()
            invariant
                0 <= i <= data.len(),
                self.pending@ == old(self).pending@ + data@.subrange(0, i as int),
                self.max_head == old(self).max_head,
                self.closed == old(self).closed,
                self.paused == old(self).paused,
                old(self).pending@.len() + data@.len() <= usize::MAX,
            decreases data.len() - i,
        {
            self.pending.push(data[i]);
            i = i + 1;
        }
        proof {
            assert(data@.subrange(0, data@.len() as int) == data@);
            lemma_drain_rest_settled(self.pending@);
        }
        self.drain_pending()
    }

    /// Keeps the bytes of a read made while parsing waits.
    pub fn buffer(&mut self, data: &[u8])
        requires
            old(self).is_paused(),
            old(self).pending_bytes().len() + data@.len() <= usize::MAX,
        ensures
            final(self).pending_bytes() == old(self).pending_bytes() + data@,
            final(self).max_head_len() == old(self).max_head_len(),
            final(self).is_closed() == old(self).is_closed(),
            final(self).is_paused(),
    {
        let mut i: usize = 0;
        while i < data.len()
            invariant
                0 <= i <= data.len(),
                self.pending@ == old(self).pending@ + data@.subrange(0, i as int),
                self.max_head == old(self).max_head,
                self.closed == old(self).closed,
                self.paused == old(self).paused,
                old(self).pending@.len() + data@.len() <= usize::MAX,
            decreases data.len() - i,
        {
            self.pending.push(data[i]);
            i = i + 1;
        }
        assert(data@.subrange(0, data@.len() as int) == data@);
    }

    /// Offers the kept bytes to the reader of the current request's body:
    /// what it takes leaves the connection, the rest stays for what follows
    /// the body.
    pub fn feed_body(&mut self, reader: &mut BodyReader) -> (n: usize)
        requires
            old(self).is_paused(),
            old(reader)@.decoder.wf(),
        ensures
            final(reader)@.decoder.wf(),
            (final(reader)@, n as nat) == step_spec(old(reader)@, old(self).pending_bytes()),
            final(reader).spec_keep_alive() == old(reader).spec_keep_alive(),
            n <= old(self).pending_bytes().len(),
            final(self).pending_bytes() == old(self).pending_bytes().skip(n as int),
            final(self).max_head_len() == old(self).max_head_len(),
            final(self).is_closed() == old(self).is_closed(),
            final(self).is_paused(),
    {
        let n = reader.step(self.pending.as_slice());
        let rest = self.pending.split_off(n);
        self.pending = rest;
        n
    }

    /// Goes on parsing after a body was read or an upgrade declined: the
    /// heads kept behind are handed out as a read would.
    pub fn resume(&mut self) -> (r: ReadOutcome)
        requires
            !old(self).is_closed(),
            old(self).is_paused(),
        ensures
            final(self).max_head_len() == old(self).max_head_len(),
            ({
                let d = drain(old(self).pending_bytes());
                &&& r.heads.deep_view() == d.0
                &&& final(self).pending_bytes() == d.1
                &&& r.end == end_of(d.2, d.1.len(), old(self).max_head_len())
                &&& final(self).is_closed() == (r.end == ConnEnd::Malformed || r.end == ConnEnd::HeadTooLarge)
                &&& final(self).is_paused() == (r.end == ConnEnd::Upgrade || r.end == ConnEnd::Body)
            }),
    {
        self.paused = false;
        self.drain_pending()
    }
}

} // verus!
