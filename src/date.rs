//! The date sent with every response, refreshed from the clock by its owner,
//! and the plain-text response written in one piece.
use vstd::prelude::*;
use vstd::string::StringSliceAdditionalSpecFns;

verus! {

/// First second that the date format cannot show (the year 10000).
pub const DATE_LIMIT_SECS: u64 = 253402300800;

/// The IMF-fixdate (RFC 7231) of a moment given in seconds since the Unix
/// epoch.
pub uninterp spec fn http_date_of(secs: u64) -> Seq<char>;

/// Relies on httpdate::fmt_http_date: it formats a moment as an IMF-fixdate,
/// which always has 29 characters, and panics from the year 10000 on.
#[verifier::external_body]
fn fmt_http_date(secs: u64) -> (r: String)
    requires
        secs < DATE_LIMIT_SECS,
    ensures
        r@ == http_date_of(secs),
        r@.len() == 29,
{
    httpdate::fmt_http_date(std::time::UNIX_EPOCH + std::time::Duration::from_secs(secs))
}

/// The current date, as sent in the `Date` header.
pub struct HttpDate {
    pub current_date: String,
}

impl HttpDate {
    /// The date of the moment `unix_secs`, read from the clock by the caller.
    pub fn now(unix_secs: u64) -> (r: HttpDate)
        requires
            unix_secs < DATE_LIMIT_SECS,
        ensures
            r.current_date@ == http_date_of(unix_secs),
    {
        HttpDate { current_date: fmt_http_date(unix_secs) }
    }

    /// Moves the date to the moment `unix_secs`.
    pub fn update(&mut self, unix_secs: u64)
        requires
            unix_secs < DATE_LIMIT_SECS,
        ensures
            final(self).current_date@ == http_date_of(unix_secs),
    {
        self.current_date = fmt_http_date(unix_secs);
    }
}

/// The decimal digits of `n`, in ASCII.
pub open spec fn decimal(n: nat) -> Seq<u8>
    decreases n,
{
    if n < 10 {
        seq![(48 + n) as u8]
    } else {
        decimal(n / 10).push((48 + n % 10) as u8)
    }
}

/// Writes `n` in decimal.
pub fn decimal_bytes(n: u64) -> (r: Vec<u8>)
    ensures
        r@ == decimal(n as nat),
    decreases n,
{
    if n < 10 {
        let mut r: Vec<u8> = Vec::new();
        r.push((48 + n) as u8);
        r
    } else {
        let mut r = decimal_bytes(n / 10);
        r.push((48 + n % 10) as u8);
        r
    }
}

fn push_all(out: &mut Vec<u8>, b: &[u8])
    ensures
        final(out)@ == old(out)@ + b@,
{
    let mut i: usize = 0;
    while i < b.len()
        invariant
            i <= b.len(),
            out@ == old(out)@ + b@.subrange(0, i as int),
        decreases b.len() - i,
    {
        out.push(b[i]);
        i = i + 1;
    }
    assert(b@.subrange(0, b@.len() as int) == b@);
}

/// The bytes of a plain-text response with this status, date and body.
pub open spec fn status_response_spec(status: u32, date: Seq<u8>, body: Seq<u8>) -> Seq<u8> {
    "HTTP/1.1 ".spec_bytes() + decimal(status as nat) + " OK\r\nDate: ".spec_bytes() + date
        + "\r\ncontent-type: text/plain;charset=utf-8\r\nContent-Length: ".spec_bytes()
        + decimal(body.len()) + "\r\n\r\n".spec_bytes() + body
}

/// Writes a plain-text response: status line, date, content type and length,
/// then the body.
pub fn status_response(status: u32, date: &str, body: &str) -> (r: Vec<u8>)
    ensures
        r@ == status_response_spec(status, date.spec_bytes(), body.spec_bytes()),
{
    let mut out: Vec<u8> = Vec::new();
    push_all(&mut out, "HTTP/1.1 ".as_bytes());
    let code = decimal_bytes(status as u64);
    push_all(&mut out, code.as_slice());
    push_all(&mut out, " OK\r\nDate: ".as_bytes());
    push_all(&mut out, date.as_bytes());
    push_all(&mut out, "\r\ncontent-type: text/plain;charset=utf-8\r\nContent-Length: ".as_bytes());
    let body_bytes = body.as_bytes();
    let len = decimal_bytes(body_bytes.len() as u64);
    push_all(&mut out, len.as_slice());
    push_all(&mut out, "\r\n\r\n".as_bytes());
    push_all(&mut out, body_bytes);
    out
}

} // verus!
