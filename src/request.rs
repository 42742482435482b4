//! A parsed request as the dispatcher sees it: method, URL, headers, and a
//! body that can be claimed once.
use vstd::prelude::*;
use vstd::string::StrSliceExecFns;
use crate::head::{method_has_body, HeadView, RequestHead};

verus! {

/// Why a request refused to hand out its body.
#[derive(Clone, Copy, PartialEq, Eq, Structural, Debug)]
pub enum RequestError {
    /// The body was claimed before.
    BodyAlreadyRead,
    /// The connection was taken for another protocol.
    Upgraded,
}

/// Whether two strings hold the same characters.
pub fn str_eq(a: &str, b: &str) -> (r: bool)
    ensures
        r == (a@ == b@),
{
    let n = a.unicode_len();
    if n != b.unicode_len() {
        return false;
    }
    let mut i: usize = 0;
    while i < n
        invariant
            n == a@.len(),
            n == b@.len(),
            i <= n,
            a@.subrange(0, i as int) == b@.subrange(0, i as int),
        decreases n - i,
    {
        if a.get_char(i) != b.get_char(i) {
            return false;
        }
        assert(a@.subrange(0, i + 1) =~= a@.subrange(0, i as int).push(a@[i as int]));
        assert(b@.subrange(0, i + 1) =~= b@.subrange(0, i as int).push(b@[i as int]));
        i = i + 1;
    }
    assert(a@ =~= a@.subrange(0, n as int));
    assert(b@ =~= b@.subrange(0, n as int));
    true
}

/// Whether a request with this method declares a body: every method but
/// `GET` and `HEAD` does; a missing method does not.
pub open spec fn declares_body(method: Seq<char>) -> bool {
    method.len() > 0 && method_has_body(method)
}

/// Whether a request with this method declares a body.
pub fn has_body(method: &str) -> (r: bool)
    ensures
        r == declares_body(method@),
{
    proof {
        reveal_strlit("GET");
        reveal_strlit("HEAD");
    }
    method.unicode_len() > 0 && !str_eq(method, "GET") && !str_eq(method, "HEAD")
}

/// A request handed to the dispatcher.
pub struct Request {
    head: RequestHead,
    /// The connection the request came on; its socket answers it.
    connection: u64,
    body_read: bool,
    upgraded: bool,
}

impl Request {
    pub closed spec fn spec_head(&self) -> HeadView {
        self.head@
    }

    pub closed spec fn spec_connection(&self) -> u64 {
        self.connection
    }

    pub closed spec fn spec_body_read(&self) -> bool {
        self.body_read
    }

    pub closed spec fn spec_upgraded(&self) -> bool {
        self.upgraded
    }

    /// A request read on the connection known as `connection`.
    pub fn new(head: RequestHead, connection: u64) -> (r: Request)
        ensures
            r.spec_head() == head@,
            r.spec_connection() == connection,
            !r.spec_body_read(),
            !r.spec_upgraded(),
    {
        Request { head, connection, body_read: false, upgraded: false }
    }

    /// The connection the request came on.
    pub fn connection(&self) -> (r: u64)
        ensures
            r == self.spec_connection(),
    {
        self.connection
    }

    pub fn method(&self) -> (r: String)
        ensures
            r@ == self.spec_head().method,
    {
        self.head.method.clone()
    }

    pub fn url(&self) -> (r: String)
        ensures
            r@ == self.spec_head().path,
    {
        self.head.path.clone()
    }

    /// The headers, as name and value bytes, in the order they came.
    pub fn headers(&self) -> (r: Vec<(Vec<u8>, Vec<u8>)>)
        ensures
            r.deep_view() == self.spec_head().headers,
    {
        let mut out: Vec<(Vec<u8>, Vec<u8>)> = Vec::new();
        let mut i: usize = 0;
        while i < self.head.headers.len()
            invariant
                i <= self.head.headers.len(),
                out.deep_view() == self.head.headers.deep_view().subrange(0, i as int),
            decreases self.head.headers.len() - i,
        {
            let name = vstd::slice::slice_to_vec(self.head.headers[i].0.as_slice());
            let value = vstd::slice::slice_to_vec(self.head.headers[i].1.as_slice());
            let ghost h = self.head.headers@[i as int];
            assert(name.deep_view() =~= h.0.deep_view());
            assert(value.deep_view() =~= h.1.deep_view());
            let ghost prev = out.deep_view();
            let ghost pair = (name.deep_view(), value.deep_view());
            out.push((name, value));
            assert(out.deep_view() =~= prev.push(pair));
            assert(out.deep_view() =~= self.head.headers.deep_view().subrange(0, i + 1));
            i = i + 1;
        }
        assert(self.head.headers.deep_view().subrange(0, i as int) =~= self.head.headers.deep_view());
        out
    }

    pub fn has_body(&self) -> (r: bool)
        ensures
            r == declares_body(self.spec_head().method),
    {
        has_body(self.head.method.as_str())
    }

    /// Claims the body for reading. This succeeds once, and never after the
    /// connection was taken for another protocol.
    pub fn claim_body(&mut self) -> (r: Result<(), RequestError>)
        ensures
            final(self).spec_head() == old(self).spec_head(),
            final(self).spec_upgraded() == old(self).spec_upgraded(),
            final(self).spec_connection() == old(self).spec_connection(),
            old(self).spec_upgraded() ==> r == Err::<(), RequestError>(RequestError::Upgraded) && final(self).spec_body_read() == old(self).spec_body_read(),
            !old(self).spec_upgraded() && old(self).spec_body_read() ==> r == Err::<(), RequestError>(RequestError::BodyAlreadyRead) && final(self).spec_body_read(),
            !old(self).spec_upgraded() && !old(self).spec_body_read() ==> r == Ok::<(), RequestError>(()) && final(self).spec_body_read(),
    {
        if self.upgraded {
            return Err(RequestError::Upgraded);
        }
        if self.body_read {
            return Err(RequestError::BodyAlreadyRead);
        }
        self.body_read = true;
        Ok(())
    }

    /// Notes that the connection was taken for another protocol.
    pub fn mark_upgraded(&mut self)
        ensures
            final(self).spec_head() == old(self).spec_head(),
            final(self).spec_body_read() == old(self).spec_body_read(),
            final(self).spec_connection() == old(self).spec_connection(),
            final(self).spec_upgraded(),
    {
        self.upgraded = true;
    }
}

} // verus!
