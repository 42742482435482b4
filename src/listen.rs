//! Listener configuration and the address it binds to.
use vstd::prelude::*;
use vstd::string::StrSliceExecFns;

verus! {

/// Whether unstable APIs may be used.
pub struct Unstable(pub bool);

/// The options a listener is started with.
pub struct ListenOpts {
    /// TLS certificate, handed to the TLS layer.
    pub cert: Option<String>,
    /// TLS key, handed to the TLS layer.
    pub key: Option<String>,
    pub hostname: String,
    pub port: u16,
    pub reuseport: bool,
}

/// `s` without the copies of `c` that it starts with.
pub open spec fn trim_start(s: Seq<char>, c: char) -> Seq<char>
    decreases s.len(),
{
    if s.len() > 0 && s[0] == c {
        trim_start(s.drop_first(), c)
    } else {
        s
    }
}

/// `s` without the copies of `c` that it ends with.
pub open spec fn trim_end(s: Seq<char>, c: char) -> Seq<char>
    decreases s.len(),
{
    if s.len() > 0 && s.last() == c {
        trim_end(s.drop_last(), c)
    } else {
        s
    }
}

/// The host to bind to: every interface when none is given, else the name
/// with the brackets of an IPv6 literal taken off.
pub open spec fn bind_host(hostname: Seq<char>) -> Seq<char> {
    if hostname.len() == 0 {
        "0.0.0.0"@
    } else {
        trim_end(trim_start(hostname, '['), ']')
    }
}

/// The host and port to bind to for `hostname` and `port`.
pub fn make_addr_port_pair(hostname: &str, port: u16) -> (r: (&str, u16))
    ensures
        r.0@ == bind_host(hostname@),
        r.1 == port,
{
    let len = hostname.unicode_len();
    if len == 0 {
        proof {
            reveal_strlit("0.0.0.0");
        }
        return ("0.0.0.0", port);
    }
    let mut i: usize = 0;
    assert(hostname@.subrange(0, len as int) =~= hostname@);
    while i < len && hostname.get_char(i) == '['
        invariant
            i <= len,
            len == hostname@.len(),
            trim_start(hostname@, '[') == trim_start(hostname@.subrange(i as int, len as int), '['),
        decreases len - i,
    {
        assert(hostname@.subrange(i as int, len as int).drop_first() =~= hostname@.subrange(
            i + 1,
            len as int,
        ));
        i = i + 1;
    }
    let ghost start = hostname@.subrange(i as int, len as int);
    assert(trim_start(start, '[') == start);
    let mut j: usize = len;
    while j > i && hostname.get_char(j - 1) == ']'
        invariant
            i <= j <= len,
            len == hostname@.len(),
            trim_end(start, ']') == trim_end(hostname@.subrange(i as int, j as int), ']'),
        decreases j - i,
    {
        assert(hostname@.subrange(i as int, j as int).drop_last() =~= hostname@.subrange(
            i as int,
            j - 1,
        ));
        j = j - 1;
    }
    (hostname.substring_char(i, j), port)
}

} // verus!
