//! Request heads: the parsed request line and headers, and the parser call.
use vstd::prelude::*;

verus! {

/// Number of header slots offered to the parser for one request head.
pub const HEADER_SLOTS: usize = 40;

/// A parsed request head.
pub struct RequestHead {
    pub method: String,
    pub path: String,
    /// Header names and values, as raw bytes, in the order they came.
    pub headers: Vec<(Vec<u8>, Vec<u8>)>,
    /// Length of the head in bytes: the body starts at this offset.
    pub len: usize,
}

/// The model of a request head.
pub struct HeadView {
    pub method: Seq<char>,
    pub path: Seq<char>,
    pub headers: Seq<(Seq<u8>, Seq<u8>)>,
    pub len: nat,
}

impl View for RequestHead {
    type V = HeadView;

    open spec fn view(&self) -> HeadView {
        HeadView {
            method: self.method@,
            path: self.path@,
            headers: self.headers.deep_view(),
            len: self.len as nat,
        }
    }
}

impl DeepView for RequestHead {
    type V = HeadView;

    open spec fn deep_view(&self) -> HeadView {
        self@
    }
}

/// What one attempt to parse a head gives.
pub enum ParseStatus {
    /// More bytes are needed.
    Incomplete,
    /// A whole head was read.
    Complete(RequestHead),
    /// The bytes are not a request head; the connection must be closed.
    Malformed,
}

/// The model of a parse attempt.
pub enum HeadParse {
    Incomplete,
    Complete(HeadView),
    Malformed,
}

impl View for ParseStatus {
    type V = HeadParse;

    open spec fn view(&self) -> HeadParse {
        match self {
            ParseStatus::Incomplete => HeadParse::Incomplete,
            ParseStatus::Complete(h) => HeadParse::Complete(h@),
            ParseStatus::Malformed => HeadParse::Malformed,
        }
    }
}

/// What the HTTP/1.x parser makes of `buf` with `slots` header slots.
pub uninterp spec fn head_parse(buf: Seq<u8>, slots: nat) -> HeadParse;

/// Relies on httparse::Request::parse: the outcome depends on the bytes and
/// the number of header slots alone, and a complete head ends at a byte
/// offset inside the buffer, after at least one byte of request line.
#[verifier::external_body]
fn parse_head(buf: &[u8], slots: usize) -> (r: ParseStatus)
    ensures
        r@ == head_parse(buf@, slots as nat),
        r matches ParseStatus::Complete(h) ==> 0 < h.len <= buf.len(),
{
    let mut hs = vec![httparse::EMPTY_HEADER; slots];
    let mut req = httparse::Request::new(&mut hs);
    match req.parse(buf) {
        Ok(httparse::Status::Complete(len)) => ParseStatus::Complete(RequestHead {
            method: req.method.unwrap_or_default().to_string(),
            path: req.path.unwrap_or_default().to_string(),
            headers: req.headers.iter().map(|h| (h.name.as_bytes().to_vec(), h.value.to_vec())).collect(),
            len,
        }),
        Ok(httparse::Status::Partial) => ParseStatus::Incomplete,
        Err(_) => ParseStatus::Malformed,
    }
}

/// Parses one request head from the start of `buf`.
pub fn parse_request_head(buf: &[u8]) -> (r: ParseStatus)
    ensures
        r@ == head_parse(buf@, HEADER_SLOTS as nat),
        r matches ParseStatus::Complete(h) ==> 0 < h.len <= buf.len(),
{
    parse_head(buf, HEADER_SLOTS)
}

/// Whether a request with this method carries a body: every method but
/// `GET` and `HEAD` does.
pub open spec fn method_has_body(method: Seq<char>) -> bool {
    method != "GET"@ && method != "HEAD"@
}

/// `s` with ASCII capitals made small.
pub open spec fn ascii_lower(s: Seq<u8>) -> Seq<u8> {
    s.map_values(|b: u8| if 65 <= b <= 90 { (b + 32) as u8 } else { b })
}

/// The header name `upgrade`, in small letters.
pub open spec fn upgrade_name() -> Seq<u8> {
    seq![117u8, 112u8, 103u8, 114u8, 97u8, 100u8, 101u8]
}

/// Whether a request asks to switch to another protocol: it carries an
/// `Upgrade` header, whatever the case of its name.
pub open spec fn asks_upgrade(h: HeadView) -> bool {
    exists|i: int| 0 <= i < h.headers.len() && ascii_lower(#[trigger] h.headers[i].0) == upgrade_name()
}

/// Whether `a`, with ASCII capitals made small, equals `lower`.
pub fn eq_ignore_ascii_case(a: &[u8], lower: &[u8]) -> (r: bool)
    ensures
        r == (ascii_lower(a@) == lower@),
{
    if a.len() != lower.len() {
        assert(ascii_lower(a@).len() != lower@.len());
        return false;
    }
    let mut i: usize = 0;
    while i < a.len()
        invariant
            i <= a.len(),
            a.len() == lower.len(),
            forall|j: int| 0 <= j < i ==> ascii_lower(a@)[j] == lower@[j],
        decreases a.len() - i,
    {
        let b = a[i];
        let l = if 65 <= b && b <= 90 { b + 32 } else { b };
        if l != lower[i] {
            assert(ascii_lower(a@)[i as int] != lower@[i as int]);
            return false;
        }
        i = i + 1;
    }
    assert(ascii_lower(a@) =~= lower@);
    true
}

/// Whether the request asks to switch to another protocol.
pub fn head_asks_upgrade(h: &RequestHead) -> (r: bool)
    ensures
        r == asks_upgrade(h@),
{
    let name: [u8; 7] = [117, 112, 103, 114, 97, 100, 101];
    assert(name@ =~= upgrade_name());
    let mut i: usize = 0;
    while i < h.headers.len()
        invariant
            i <= h.headers.len(),
            name@ == upgrade_name(),
            forall|j: int| 0 <= j < i ==> ascii_lower(#[trigger] h@.headers[j].0) != upgrade_name(),
        decreases h.headers.len() - i,
    {
        let found = eq_ignore_ascii_case(h.headers[i].0.as_slice(), name.as_slice());
        assert(h@.headers[i as int].0 == h.headers@[i as int].0@);
        if found {
            return true;
        }
        i = i + 1;
    }
    false
}

/// The value of the first header whose name, in small letters, is `name`.
pub open spec fn header_value(headers: Seq<(Seq<u8>, Seq<u8>)>, name: Seq<u8>) -> Option<Seq<u8>>
    decreases headers.len(),
{
    if headers.len() == 0 {
        None
    } else if ascii_lower(headers[0].0) == name {
        Some(headers[0].1)
    } else {
        header_value(headers.drop_first(), name)
    }
}

/// The header name `content-length`, in small letters.
pub open spec fn content_length_name() -> Seq<u8> {
    seq![99u8, 111u8, 110u8, 116u8, 101u8, 110u8, 116u8, 45u8, 108u8, 101u8, 110u8, 103u8, 116u8, 104u8]
}

/// The header name `transfer-encoding`, in small letters.
pub open spec fn transfer_encoding_name() -> Seq<u8> {
    seq![116u8, 114u8, 97u8, 110u8, 115u8, 102u8, 101u8, 114u8, 45u8, 101u8, 110u8, 99u8, 111u8, 100u8, 105u8, 110u8, 103u8]
}

/// The coding `chunked`, in small letters.
pub open spec fn chunked_name() -> Seq<u8> {
    seq![99u8, 104u8, 117u8, 110u8, 107u8, 101u8, 100u8]
}

/// The number written in decimal digits by `s`.
pub open spec fn decimal_value(s: Seq<u8>) -> nat
    decreases s.len(),
{
    if s.len() == 0 {
        0
    } else {
        decimal_value(s.drop_last()) * 10 + (s.last() - 48) as nat
    }
}

/// Whether `s` is a non-empty run of decimal digits.
pub open spec fn all_digits(s: Seq<u8>) -> bool {
    s.len() > 0 && forall|i: int| 0 <= i < s.len() ==> 48 <= #[trigger] s[i] <= 57
}

/// The length that a `Content-Length` value states, if it is a number that
/// fits in memory.
pub open spec fn length_value(s: Seq<u8>) -> Option<nat> {
    if all_digits(s) && decimal_value(s) <= usize::MAX {
        Some(decimal_value(s))
    } else {
        None
    }
}

/// How the body of a request is framed.
#[derive(Clone, Copy, PartialEq, Eq, Structural, Debug)]
pub enum Framing {
    /// No body.
    Empty,
    /// A body of this many bytes.
    Length(usize),
    /// A body in the chunked transfer coding.
    Chunked,
    /// The framing headers make no sense; the request cannot be read.
    Invalid,
}

/// The framing of a request's body: chunked when its transfer coding says
/// so, else the length its `Content-Length` states, else no body.
pub open spec fn framing_of(h: HeadView) -> Framing {
    match header_value(h.headers, transfer_encoding_name()) {
        Some(te) => if ascii_lower(te) == chunked_name() {
            Framing::Chunked
        } else {
            Framing::Invalid
        },
        None => match header_value(h.headers, content_length_name()) {
            Some(v) => match length_value(v) {
                Some(n) => if n == 0 {
                    Framing::Empty
                } else {
                    Framing::Length(n as usize)
                },
                None => Framing::Invalid,
            },
            None => Framing::Empty,
        },
    }
}

/// Finds the value of the first header named `name` (given in small letters).
pub fn find_header<'a>(headers: &'a Vec<(Vec<u8>, Vec<u8>)>, name: &[u8]) -> (r: Option<&'a Vec<u8>>)
    ensures
        match header_value(headers.deep_view(), name@) {
            Some(v) => r matches Some(x) && x@ == v,
            None => r is None,
        },
{
    let mut i: usize = 0;
    assert(headers.deep_view().subrange(0, headers.len() as int) =~= headers.deep_view());
    while i < headers.len()
        invariant
            i <= headers.len(),
            header_value(headers.deep_view(), name@) == header_value(
                headers.deep_view().subrange(i as int, headers.len() as int),
                name@,
            ),
        decreases headers.len() - i,
    {
        let ghost rest = headers.deep_view().subrange(i as int, headers.len() as int);
        assert(rest[0] == (headers[i as int].0@, headers[i as int].1@));
        assert(rest.drop_first() =~= headers.deep_view().subrange(i + 1, headers.len() as int));
        if eq_ignore_ascii_case(headers[i].0.as_slice(), name) {
            return Some(&headers[i].1);
        }
        i = i + 1;
    }
    None
}

/// Reads a `Content-Length` value.
pub fn parse_length(s: &[u8]) -> (r: Option<usize>)
    ensures
        match length_value(s@) {
            Some(n) => r == Some(n as usize),
            None => r is None,
        },
{
    if s.len() == 0 {
        return None;
    }
    let mut acc: usize = 0;
    let mut i: usize = 0;
    while i < s.len()
        invariant
            0 < s.len(),
            i <= s.len(),
            forall|j: int| 0 <= j < i ==> 48 <= #[trigger] s@[j] <= 57,
            acc as nat == decimal_value(s@.subrange(0, i as int)),
        decreases s.len() - i,
    {
        let b = s[i];
        assert(s@.subrange(0, i + 1).drop_last() =~= s@.subrange(0, i as int));
        if b < 48 || b > 57 {
            assert(!all_digits(s@));
            return None;
        }
        let d = (b - 48) as usize;
        if acc > (usize::MAX - d) / 10 {
            proof {
                lemma_decimal_prefix_grows(s@, i as int + 1);
            }
            return None;
        }
        acc = acc * 10 + d;
        i = i + 1;
    }
    assert(s@.subrange(0, s@.len() as int) =~= s@);
    Some(acc)
}

proof fn lemma_decimal_prefix_grows(s: Seq<u8>, k: int)
    requires
        0 < k <= s.len(),
    ensures
        decimal_value(s) >= decimal_value(s.subrange(0, k)),
    decreases s.len() - k,
{
    if k == s.len() {
        assert(s.subrange(0, k) =~= s);
    } else {
        lemma_decimal_prefix_grows(s, k + 1);
        assert(s.subrange(0, k + 1).drop_last() =~= s.subrange(0, k));
    }
}

/// How the body of the request with this head is framed.
pub fn framing(h: &RequestHead) -> (r: Framing)
    ensures
        r == framing_of(h@),
{
    let te: [u8; 17] = [116, 114, 97, 110, 115, 102, 101, 114, 45, 101, 110, 99, 111, 100, 105, 110, 103];
    let cl: [u8; 14] = [99, 111, 110, 116, 101, 110, 116, 45, 108, 101, 110, 103, 116, 104];
    let chunked: [u8; 7] = [99, 104, 117, 110, 107, 101, 100];
    assert(te@ =~= transfer_encoding_name());
    assert(cl@ =~= content_length_name());
    assert(chunked@ =~= chunked_name());
    match find_header(&h.headers, te.as_slice()) {
        Some(v) => if eq_ignore_ascii_case(v.as_slice(), chunked.as_slice()) {
            Framing::Chunked
        } else {
            Framing::Invalid
        },
        None => match find_header(&h.headers, cl.as_slice()) {
            Some(v) => match parse_length(v.as_slice()) {
                Some(n) => if n == 0 {
                    Framing::Empty
                } else {
                    Framing::Length(n)
                },
                None => Framing::Invalid,
            },
            None => Framing::Empty,
        },
    }
}

} // verus!
