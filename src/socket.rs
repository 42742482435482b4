//! The connection socket: one transport shared by the holders that write to
//! it, and taken whole, by its last holder only, for an upgrade.
use vstd::prelude::*;

verus! {

/// Why the transport could not be taken.
#[derive(Clone, Copy, PartialEq, Eq, Structural, Debug)]
pub enum TakeError {
    /// Another holder still refers to the connection.
    InUse,
    /// The transport was taken before.
    AlreadyTaken,
}

impl TakeError {
    /// The message reported to the caller.
    pub fn message(&self) -> (r: &'static str)
        ensures
            *self == TakeError::InUse ==> r@ == "Request has already been used"@,
            *self == TakeError::AlreadyTaken ==> r@ == "Connection has already been taken"@,
    {
        match self {
            TakeError::InUse => "Request has already been used",
            TakeError::AlreadyTaken => "Connection has already been taken",
        }
    }
}

/// The model of a socket: its transport while it is there, and the number of
/// holders that refer to it.
pub struct SocketState<T> {
    pub transport: Option<T>,
    pub holders: nat,
}

/// What taking the transport does: it succeeds only for a sole holder and
/// only once; a failed take leaves the socket as it was.
pub open spec fn take_spec<T>(s: SocketState<T>) -> (SocketState<T>, Result<T, TakeError>) {
    match s.transport {
        None => (s, Err(TakeError::AlreadyTaken)),
        Some(t) => if s.holders > 1 {
            (s, Err(TakeError::InUse))
        } else {
            (SocketState { transport: None, holders: s.holders }, Ok(t))
        },
    }
}

/// A connection's transport and the count of its holders.
pub struct Socket<T> {
    transport: Option<T>,
    holders: usize,
}

impl<T> View for Socket<T> {
    type V = SocketState<T>;

    closed spec fn view(&self) -> SocketState<T> {
        SocketState { transport: self.transport, holders: self.holders as nat }
    }
}

impl<T> Socket<T> {
    /// A socket over a freshly accepted transport, with one holder.
    pub fn new(transport: T) -> (r: Socket<T>)
        ensures
            r@ == (SocketState { transport: Some(transport), holders: 1 }),
    {
        Socket { transport: Some(transport), holders: 1 }
    }

    /// Registers one more holder. Fails, changing nothing, when the count
    /// cannot grow.
    pub fn share(&mut self) -> (ok: bool)
        ensures
            ok == (old(self)@.holders < usize::MAX),
            final(self)@ == (if ok {
                SocketState { transport: old(self)@.transport, holders: old(self)@.holders + 1 }
            } else {
                old(self)@
            }),
    {
        if self.holders < usize::MAX {
            self.holders = self.holders + 1;
            true
        } else {
            false
        }
    }

    /// One holder lets go of the socket.
    pub fn unshare(&mut self)
        requires
            old(self)@.holders > 1,
        ensures
            final(self)@ == (SocketState { transport: old(self)@.transport, holders: (old(self)@.holders - 1) as nat }),
    {
        self.holders = self.holders - 1;
    }

    pub fn holders(&self) -> (r: usize)
        ensures
            r == self@.holders,
    {
        self.holders
    }

    /// The transport, for writing, while it has not been taken.
    pub fn transport(&self) -> (r: Option<&T>)
        ensures
            r == match self@.transport {
                Some(t) => Some(&t),
                None => None::<&T>,
            },
    {
        match &self.transport {
            Some(t) => Some(t),
            None => None,
        }
    }

    /// Takes the transport out for an upgrade. This fails while any other
    /// holder refers to the connection, and after the transport was taken.
    pub fn take(&mut self) -> (r: Result<T, TakeError>)
        ensures
            (final(self)@, r) == take_spec(old(self)@),
    {
        if self.transport.is_none() {
            return Err(TakeError::AlreadyTaken);
        }
        if self.holders > 1 {
            return Err(TakeError::InUse);
        }
        match self.transport.take() {
            Some(t) => Ok(t),
            None => Err(TakeError::AlreadyTaken),
        }
    }
}

/// A take while a second holder refers to the connection fails and leaves
/// the transport where it was; once that holder is gone, a take succeeds with
/// that very transport, and every later take fails.
pub proof fn lemma_take_exclusive<T>(t: T)
    ensures
        ({
            let shared = SocketState { transport: Some(t), holders: 2 };
            let (after_fail, failed) = take_spec(shared);
            let sole = SocketState { transport: after_fail.transport, holders: 1 };
            let (after_take, taken) = take_spec(sole);
            let (after_again, again) = take_spec(after_take);
            &&& failed == Err::<T, TakeError>(TakeError::InUse)
            &&& after_fail == shared
            &&& taken == Ok::<T, TakeError>(t)
            &&& again == Err::<T, TakeError>(TakeError::AlreadyTaken)
            &&& after_again == after_take
        }),
        forall|s: SocketState<T>| s.holders > 1 ==> (#[trigger] take_spec(s)).0 == s && take_spec(s).1.is_err(),
{
}

/// Bytes that were read from a connection before it was taken for another
/// protocol. They are handed out before anything new is read.
pub struct Prebuffer {
    pre: Vec<u8>,
}

impl View for Prebuffer {
    type V = Seq<u8>;

    closed spec fn view(&self) -> Seq<u8> {
        self.pre@
    }
}

impl Prebuffer {
    pub fn new(bytes: Vec<u8>) -> (r: Prebuffer)
        ensures
            r@ == bytes@,
    {
        Prebuffer { pre: bytes }
    }

    pub fn is_empty(&self) -> (r: bool)
        ensures
            r == (self@.len() == 0),
    {
        self.pre.len() == 0
    }

    /// Hands out the first buffered bytes, as many as fit in `room`; the rest
    /// stay buffered.
    pub fn read_into(&mut self, room: usize) -> (r: Vec<u8>)
        ensures
            r@ == old(self)@.take(min_nat(old(self)@.len(), room as nat) as int),
            final(self)@ == old(self)@.skip(min_nat(old(self)@.len(), room as nat) as int),
    {
        let n = if self.pre.len() <= room { self.pre.len() } else { room };
        let mut out = self.pre.split_off(n);
        std::mem::swap(&mut out, &mut self.pre);
        proof {
            assert(out@ =~= old(self)@.take(n as int));
            assert(self.pre@ =~= old(self)@.skip(n as int));
        }
        out
    }
}

pub open spec fn min_nat(a: nat, b: nat) -> nat {
    if a <= b { a } else { b }
}

} // verus!
