//! The chunked transfer coding (RFC 7230, section 4.1), decoded one byte at
//! a time so that a body may arrive split anywhere.
use vstd::prelude::*;

verus! {

/// Where a chunked body stands between two bytes.
#[derive(Clone, Copy, PartialEq, Eq, Structural, Debug)]
pub enum ChunkedState {
    /// Reading the hexadecimal size of the next chunk; whether a digit was seen.
    Size(usize, bool),
    /// Skipping a chunk extension, up to the end of the size line.
    Extension(usize),
    /// The size line ended with CR; LF must follow.
    SizeLf(usize),
    /// Inside the data of a chunk: the bytes still to come.
    Data(usize),
    /// After a chunk's data: CR must follow.
    DataCr,
    /// After a chunk's data and CR: LF must follow.
    DataLf,
    /// In the trailer section; whether at the start of a line.
    Trailer(bool),
    /// A trailer line (or the final empty line, when true) ended with CR.
    TrailerLf(bool),
    /// The body is over; what follows belongs to the next request.
    Done,
    /// The framing was broken; the connection must be closed.
    Failed,
}

/// The value of a hexadecimal digit.
pub open spec fn hex_value(b: u8) -> Option<nat> {
    if 48 <= b <= 57 {
        Some((b - 48) as nat)
    } else if 97 <= b <= 102 {
        Some((b - 87) as nat)
    } else if 65 <= b <= 70 {
        Some((b - 55) as nat)
    } else {
        None
    }
}

pub open spec fn is_final(st: ChunkedState) -> bool {
    st is Done || st is Failed
}

/// One byte of a chunked body: the next state, and whether the byte is data.
pub open spec fn chunk_step(st: ChunkedState, b: u8) -> (ChunkedState, bool) {
    match st {
        ChunkedState::Size(acc, digit) => match hex_value(b) {
            Some(v) => if acc * 16 + v <= usize::MAX {
                (ChunkedState::Size((acc * 16 + v) as usize, true), false)
            } else {
                (ChunkedState::Failed, false)
            },
            None => if !digit {
                (ChunkedState::Failed, false)
            } else if b == 13 {
                (ChunkedState::SizeLf(acc), false)
            } else if b == 59 || b == 32 || b == 9 {
                (ChunkedState::Extension(acc), false)
            } else {
                (ChunkedState::Failed, false)
            },
        },
        ChunkedState::Extension(acc) => if b == 13 {
            (ChunkedState::SizeLf(acc), false)
        } else if b == 10 {
            (ChunkedState::Failed, false)
        } else {
            (st, false)
        },
        ChunkedState::SizeLf(acc) => if b != 10 {
            (ChunkedState::Failed, false)
        } else if acc == 0 {
            (ChunkedState::Trailer(true), false)
        } else {
            (ChunkedState::Data(acc), false)
        },
        ChunkedState::Data(left) => if left <= 1 {
            (ChunkedState::DataCr, true)
        } else {
            (ChunkedState::Data((left - 1) as usize), true)
        },
        ChunkedState::DataCr => if b == 13 {
            (ChunkedState::DataLf, false)
        } else {
            (ChunkedState::Failed, false)
        },
        ChunkedState::DataLf => if b == 10 {
            (ChunkedState::Size(0, false), false)
        } else {
            (ChunkedState::Failed, false)
        },
        ChunkedState::Trailer(line_start) => if b == 13 {
            (ChunkedState::TrailerLf(line_start), false)
        } else if b == 10 {
            (ChunkedState::Failed, false)
        } else {
            (ChunkedState::Trailer(false), false)
        },
        ChunkedState::TrailerLf(empty_line) => if b != 10 {
            (ChunkedState::Failed, false)
        } else if empty_line {
            (ChunkedState::Done, false)
        } else {
            (ChunkedState::Trailer(true), false)
        },
        ChunkedState::Done | ChunkedState::Failed => (st, false),
    }
}

/// Decoding `input` from `st`: the state reached, the data bytes, and how
/// many bytes of `input` were used. Decoding stops where the body ends or
/// breaks; the rest of `input` is not looked at.
pub open spec fn run_chunked(st: ChunkedState, input: Seq<u8>) -> (ChunkedState, Seq<u8>, nat)
    decreases input.len(),
{
    if input.len() == 0 || is_final(st) {
        (st, Seq::<u8>::empty(), 0)
    } else {
        let (next, data) = chunk_step(st, input[0]);
        let rest = run_chunked(next, input.drop_first());
        (rest.0, if data { seq![input[0]] + rest.1 } else { rest.1 }, rest.2 + 1)
    }
}

/// Decoding is the same however the body is split: decoding `a` and then
/// `b` from where `a` left off gives what decoding `a + b` at once gives.
/// Once the body has ended or broken inside `a`, `b` is not touched.
pub proof fn lemma_chunked_split(st: ChunkedState, a: Seq<u8>, b: Seq<u8>)
    ensures
        run_chunked(st, a).2 <= a.len(),
        run_chunked(st, a).2 == a.len() ==> run_chunked(st, a + b) == ({
            let ra = run_chunked(st, a);
            let rb = run_chunked(ra.0, b);
            (rb.0, ra.1 + rb.1, ra.2 + rb.2)
        }),
        run_chunked(st, a).2 < a.len() ==> run_chunked(st, a + b) == run_chunked(st, a),
    decreases a.len(),
{
    if a.len() == 0 {
        assert(a + b =~= b);
        assert(Seq::<u8>::empty() + run_chunked(st, b).1 =~= run_chunked(st, b).1);
    } else if !is_final(st) {
        let (next, data) = chunk_step(st, a[0]);
        let t = a.drop_first();
        assert((a + b).drop_first() =~= t + b);
        assert((a + b)[0] == a[0]);
        lemma_chunked_split(next, t, b);
        let rt = run_chunked(next, t);
        if rt.2 == t.len() {
            let rb = run_chunked(rt.0, b);
            if data {
                assert(seq![a[0]] + (rt.1 + rb.1) =~= (seq![a[0]] + rt.1) + rb.1);
            }
        }
    }
}

/// The lowercase hexadecimal digit for `d` below sixteen.
pub open spec fn hex_digit_of(d: nat) -> u8 {
    if d < 10 {
        (48 + d) as u8
    } else {
        (87 + d) as u8
    }
}

/// `n` in lowercase hexadecimal.
pub open spec fn hex(n: nat) -> Seq<u8>
    decreases n,
{
    if n < 16 {
        seq![hex_digit_of(n)]
    } else {
        hex(n / 16).push(hex_digit_of(n % 16))
    }
}

/// CR LF.
pub open spec fn crlf() -> Seq<u8> {
    seq![13u8, 10u8]
}

/// One chunk: its size in hexadecimal, CR LF, its data, CR LF.
pub open spec fn chunk_encoding(c: Seq<u8>) -> Seq<u8> {
    hex(c.len()) + crlf() + c + crlf()
}

/// A body in the chunked transfer coding: each chunk in turn, then the last
/// chunk `0` and the empty line that ends an empty trailer.
pub open spec fn chunked_encoding(cs: Seq<Seq<u8>>) -> Seq<u8>
    decreases cs.len(),
{
    if cs.len() == 0 {
        seq![48u8] + crlf() + crlf()
    } else {
        chunk_encoding(cs[0]) + chunked_encoding(cs.drop_first())
    }
}

proof fn lemma_one(st: ChunkedState, b: u8, y: Seq<u8>)
    requires
        !is_final(st),
    ensures
        run_chunked(st, seq![b] + y) == ({
            let (next, data) = chunk_step(st, b);
            let r = run_chunked(next, y);
            (r.0, if data { seq![b] + r.1 } else { r.1 }, r.2 + 1)
        }),
{
    let x = seq![b] + y;
    assert(x[0] == b);
    assert(x.drop_first() =~= y);
}

proof fn lemma_hex_digit(d: nat)
    requires
        d < 16,
    ensures
        hex_value(hex_digit_of(d)) == Some(d),
{
}

proof fn lemma_run_hex(n: nat)
    requires
        n <= usize::MAX,
    ensures
        run_chunked(ChunkedState::Size(0, false), hex(n)) == (
            ChunkedState::Size(n as usize, true),
            Seq::<u8>::empty(),
            hex(n).len(),
        ),
    decreases n,
{
    let start = ChunkedState::Size(0, false);
    if n < 16 {
        lemma_hex_digit(n);
        lemma_one(start, hex_digit_of(n), Seq::<u8>::empty());
        assert(hex(n) =~= seq![hex_digit_of(n)] + Seq::<u8>::empty());
    } else {
        let q = n / 16;
        let d = n % 16;
        assert(q * 16 + d == n) by (nonlinear_arith)
            requires q == n / 16, d == n % 16;
        assert(q <= n) by (nonlinear_arith)
            requires q == n / 16;
        lemma_run_hex(q);
        lemma_hex_digit(d);
        let a = hex(q);
        let b = seq![hex_digit_of(d)];
        assert(hex(n) =~= a + b);
        lemma_chunked_split(start, a, b);
        lemma_one(ChunkedState::Size(q as usize, true), hex_digit_of(d), Seq::<u8>::empty());
        assert(b =~= seq![hex_digit_of(d)] + Seq::<u8>::empty());
        assert(Seq::<u8>::empty() + Seq::<u8>::empty() =~= Seq::<u8>::empty());
    }
}

proof fn lemma_run_data(c: Seq<u8>)
    requires
        0 < c.len() <= usize::MAX,
    ensures
        run_chunked(ChunkedState::Data(c.len() as usize), c) == (ChunkedState::DataCr, c, c.len()),
    decreases c.len(),
{
    let t = c.drop_first();
    assert(c =~= seq![c[0]] + t);
    lemma_one(ChunkedState::Data(c.len() as usize), c[0], t);
    if c.len() == 1 {
        assert(t =~= Seq::<u8>::empty());
        assert(seq![c[0]] + Seq::<u8>::empty() =~= c);
    } else {
        lemma_run_data(t);
    }
}

proof fn lemma_run_chunk(c: Seq<u8>)
    requires
        0 < c.len() <= usize::MAX,
    ensures
        run_chunked(ChunkedState::Size(0, false), chunk_encoding(c)) == (
            ChunkedState::Size(0, false),
            c,
            chunk_encoding(c).len(),
        ),
{
    let n = c.len() as usize;
    let e = Seq::<u8>::empty();
    lemma_run_hex(c.len());
    // the data and its CR LF, from the start of the data
    let tail = c + crlf();
    lemma_run_data(c);
    lemma_chunked_split(ChunkedState::Data(n), c, crlf());
    assert(crlf() =~= seq![13u8] + (seq![10u8] + e));
    lemma_one(ChunkedState::DataCr, 13u8, seq![10u8] + e);
    lemma_one(ChunkedState::DataLf, 10u8, e);
    assert(run_chunked(ChunkedState::Data(n), tail) == (ChunkedState::Size(0, false), c + e, c.len() + 2));
    assert(c + e =~= c);
    // the CR LF that ends the size line
    let after_size = crlf() + tail;
    assert(after_size =~= seq![13u8] + (seq![10u8] + tail));
    lemma_one(ChunkedState::Size(n, true), 13u8, seq![10u8] + tail);
    lemma_one(ChunkedState::SizeLf(n), 10u8, tail);
    // the size line itself
    lemma_chunked_split(ChunkedState::Size(0, false), hex(c.len()), after_size);
    assert(chunk_encoding(c) =~= hex(c.len()) + after_size);
    assert(e + c =~= c);
}

/// Decoding a body written in the chunked transfer coding gives back its
/// data, chunk after chunk, uses exactly the bytes of the encoding, and
/// ends there: what follows is left for the next request.
pub proof fn lemma_chunked_round_trip(cs: Seq<Seq<u8>>, rest: Seq<u8>)
    requires
        forall|i: int| 0 <= i < cs.len() ==> 0 < (#[trigger] cs[i]).len() <= usize::MAX,
    ensures
        run_chunked(ChunkedState::Size(0, false), chunked_encoding(cs) + rest) == (
            ChunkedState::Done,
            cs.flatten(),
            chunked_encoding(cs).len(),
        ),
    decreases cs.len(),
{
    let start = ChunkedState::Size(0, false);
    let e = Seq::<u8>::empty();
    if cs.len() == 0 {
        assert(chunked_encoding(cs) + rest =~= seq![48u8] + (seq![13u8] + (seq![10u8] + (seq![13u8] + (
        seq![10u8] + rest)))));
        lemma_one(start, 48u8, seq![13u8] + (seq![10u8] + (seq![13u8] + (seq![10u8] + rest))));
        lemma_one(ChunkedState::Size(0, true), 13u8, seq![10u8] + (seq![13u8] + (seq![10u8] + rest)));
        lemma_one(ChunkedState::SizeLf(0), 10u8, seq![13u8] + (seq![10u8] + rest));
        lemma_one(ChunkedState::Trailer(true), 13u8, seq![10u8] + rest);
        lemma_one(ChunkedState::TrailerLf(true), 10u8, rest);
        assert(cs.flatten() =~= e);
    } else {
        let c = cs[0];
        let tail = cs.drop_first();
        assert forall|i: int| 0 <= i < tail.len() implies 0 < (#[trigger] tail[i]).len() <= usize::MAX by {
            assert(tail[i] == cs[i + 1]);
        }
        lemma_chunked_round_trip(tail, rest);
        lemma_run_chunk(c);
        let a = chunk_encoding(c);
        let b = chunked_encoding(tail) + rest;
        assert(chunked_encoding(cs) + rest =~= a + b);
        lemma_chunked_split(start, a, b);
        assert(cs.flatten() == c + tail.flatten());
    }
}

fn hex_digit(b: u8) -> (r: Option<usize>)
    ensures
        match hex_value(b) {
            Some(v) => r == Some(v as usize),
            None => r is None,
        },
{
    if 48 <= b && b <= 57 {
        Some((b - 48) as usize)
    } else if 97 <= b && b <= 102 {
        Some((b - 87) as usize)
    } else if 65 <= b && b <= 70 {
        Some((b - 55) as usize)
    } else {
        None
    }
}

/// One byte of a chunked body.
pub fn step_byte(st: ChunkedState, b: u8) -> (r: (ChunkedState, bool))
    ensures
        r == chunk_step(st, b),
{
    match st {
        ChunkedState::Size(acc, digit) => match hex_digit(b) {
            Some(v) => if acc <= (usize::MAX - v) / 16 {
                (ChunkedState::Size(acc * 16 + v, true), false)
            } else {
                (ChunkedState::Failed, false)
            },
            None => if !digit {
                (ChunkedState::Failed, false)
            } else if b == 13 {
                (ChunkedState::SizeLf(acc), false)
            } else if b == 59 || b == 32 || b == 9 {
                (ChunkedState::Extension(acc), false)
            } else {
                (ChunkedState::Failed, false)
            },
        },
        ChunkedState::Extension(acc) => if b == 13 {
            (ChunkedState::SizeLf(acc), false)
        } else if b == 10 {
            (ChunkedState::Failed, false)
        } else {
            (st, false)
        },
        ChunkedState::SizeLf(acc) => if b != 10 {
            (ChunkedState::Failed, false)
        } else if acc == 0 {
            (ChunkedState::Trailer(true), false)
        } else {
            (ChunkedState::Data(acc), false)
        },
        ChunkedState::Data(left) => if left <= 1 {
            (ChunkedState::DataCr, true)
        } else {
            (ChunkedState::Data(left - 1), true)
        },
        ChunkedState::DataCr => if b == 13 {
            (ChunkedState::DataLf, false)
        } else {
            (ChunkedState::Failed, false)
        },
        ChunkedState::DataLf => if b == 10 {
            (ChunkedState::Size(0, false), false)
        } else {
            (ChunkedState::Failed, false)
        },
        ChunkedState::Trailer(line_start) => if b == 13 {
            (ChunkedState::TrailerLf(line_start), false)
        } else if b == 10 {
            (ChunkedState::Failed, false)
        } else {
            (ChunkedState::Trailer(false), false)
        },
        ChunkedState::TrailerLf(empty_line) => if b != 10 {
            (ChunkedState::Failed, false)
        } else if empty_line {
            (ChunkedState::Done, false)
        } else {
            (ChunkedState::Trailer(true), false)
        },
        ChunkedState::Done | ChunkedState::Failed => (st, false),
    }
}

proof fn lemma_run_unfold(st: ChunkedState, input: Seq<u8>, i: int)
    requires
        0 <= i < input.len(),
        !is_final(st),
    ensures
        run_chunked(st, input.subrange(i, input.len() as int)) == ({
            let (next, data) = chunk_step(st, input[i]);
            let rest = run_chunked(next, input.subrange(i + 1, input.len() as int));
            (rest.0, if data { seq![input[i]] + rest.1 } else { rest.1 }, rest.2 + 1)
        }),
{
    let s = input.subrange(i, input.len() as int);
    assert(s.drop_first() =~= input.subrange(i + 1, input.len() as int));
    assert(s[0] == input[i]);
}

/// Decodes as much of `input` as belongs to the body: returns the state
/// reached, the data bytes, and how many bytes of `input` were used.
pub fn decode_chunked(st: ChunkedState, input: &[u8]) -> (r: (ChunkedState, Vec<u8>, usize))
    ensures
        (r.0, r.1@, r.2 as nat) == run_chunked(st, input@),
{
    let mut cur = st;
    let mut data: Vec<u8> = Vec::new();
    let mut i: usize = 0;
    assert(input@.subrange(0, input@.len() as int) =~= input@);
    assert(Seq::<u8>::empty() + run_chunked(st, input@).1 =~= run_chunked(st, input@).1);
    while i < input.len() && !(matches!(cur, ChunkedState::Done) || matches!(cur, ChunkedState::Failed))
        invariant
            i <= input.len(),
            run_chunked(st, input@) == ({
                let rest = run_chunked(cur, input@.subrange(i as int, input@.len() as int));
                (rest.0, data@ + rest.1, (rest.2 + i) as nat)
            }),
        decreases input.len() - i,
    {
        let b = input[i];
        proof {
            lemma_run_unfold(cur, input@, i as int);
        }
        let ghost before = data@;
        let (next, is_data) = step_byte(cur, b);
        if is_data {
            data.push(b);
        }
        proof {
            let rest = run_chunked(next, input@.subrange(i + 1, input@.len() as int));
            if is_data {
                assert(before + (seq![b] + rest.1) =~= data@ + rest.1);
            }
        }
        cur = next;
        i = i + 1;
    }
    proof {
        let s = input@.subrange(i as int, input@.len() as int);
        assert(run_chunked(cur, s) == (cur, Seq::<u8>::empty(), 0nat));
        assert(data@ + Seq::<u8>::empty() =~= data@);
    }
    (cur, data, i)
}

} // verus!
