//! Response bodies: one pollable object over empty, static, resource-backed
//! and pushed bodies, with a completion handle that records, once, whether
//! the body went out whole.
use vstd::prelude::*;

verus! {

/// Size of each read issued against a resource that streams a body.
pub const RESOURCE_READ_SIZE: usize = 65536;

/// The model of one completion record.
pub struct CompletionState {
    pub complete: bool,
    pub success: bool,
    /// How many polls found the record incomplete since it was last
    /// completed or created: the tasks waiting to be woken.
    pub waiters: u64,
}

/// A record that is not complete and has no waiter.
pub open spec fn fresh_state() -> CompletionState {
    CompletionState { complete: false, success: false, waiters: 0 }
}

/// What completing does to a record.
pub open spec fn complete_spec(h: CompletionState, success: bool) -> CompletionState {
    CompletionState { complete: true, success, waiters: 0 }
}

/// What polling does to a record, and what the poller sees: the recorded
/// outcome once there is one; before that, nothing, and the poller is
/// counted among the waiters.
pub open spec fn poll_spec(h: CompletionState) -> (CompletionState, Option<bool>) {
    if h.complete {
        (h, Some(h.success))
    } else {
        (
            CompletionState { waiters: if h.waiters < u64::MAX { (h.waiters + 1) as u64 } else { h.waiters }, ..h },
            None,
        )
    }
}

/// The completion records of a server, each known by the id of the handles
/// that refer to it.
pub struct CompletionTable {
    entries: Vec<(bool, bool, u64)>,
}

impl View for CompletionTable {
    type V = Seq<CompletionState>;

    closed spec fn view(&self) -> Seq<CompletionState> {
        self.entries@.map_values(|e: (bool, bool, u64)| CompletionState { complete: e.0, success: e.1, waiters: e.2 })
    }
}

impl CompletionTable {
    pub fn new() -> (r: CompletionTable)
        ensures
            r@ == Seq::<CompletionState>::empty(),
    {
        CompletionTable { entries: Vec::new() }
    }

    pub fn len(&self) -> (r: usize)
        ensures
            r == self@.len(),
    {
        self.entries.len()
    }
}

/// An observer of one completion record. Copies of a handle refer to the
/// same record, so they all see the same outcome.
#[derive(Clone, Copy)]
pub struct CompletionHandle {
    id: usize,
}

impl View for CompletionHandle {
    type V = usize;

    closed spec fn view(&self) -> usize {
        self.id
    }
}

impl CompletionHandle {
    /// A handle to a new record, not complete, with no waiter.
    pub fn new(table: &mut CompletionTable) -> (r: CompletionHandle)
        requires
            old(table)@.len() < usize::MAX,
        ensures
            r@ == old(table)@.len(),
            final(table)@ == old(table)@.push(fresh_state()),
    {
        let id = table.entries.len();
        table.entries.push((false, false, 0));
        proof {
            assert(table@ =~= old(table)@.push(fresh_state()));
        }
        CompletionHandle { id }
    }

    /// Records the outcome. Returns how many waiting tasks have to be woken:
    /// every poll that found the record incomplete.
    pub fn complete(&self, table: &mut CompletionTable, success: bool) -> (wake: u64)
        requires
            self@ < old(table)@.len(),
        ensures
            final(table)@ == old(table)@.update(self@ as int, complete_spec(old(table)@[self@ as int], success)),
            wake == old(table)@[self@ as int].waiters,
    {
        let wake = table.entries[self.id].2;
        table.entries.set(self.id, (true, success, 0));
        proof {
            assert(table@ =~= old(table)@.update(self@ as int, complete_spec(old(table)@[self@ as int], success)));
        }
        wake
    }

    /// The recorded outcome, or `None` while there is none; in that case the
    /// caller is counted as waiting.
    pub fn poll(&self, table: &mut CompletionTable) -> (r: Option<bool>)
        requires
            self@ < old(table)@.len(),
        ensures
            final(table)@ == old(table)@.update(self@ as int, poll_spec(old(table)@[self@ as int]).0),
            r == poll_spec(old(table)@[self@ as int]).1,
    {
        let (complete, success, waiters) = table.entries[self.id];
        if complete {
            proof {
                assert(table@ =~= old(table)@.update(self@ as int, poll_spec(old(table)@[self@ as int]).0));
            }
            Some(success)
        } else {
            let w = if waiters < u64::MAX { waiters + 1 } else { waiters };
            table.entries.set(self.id, (false, success, w));
            proof {
                assert(table@ =~= old(table)@.update(self@ as int, poll_spec(old(table)@[self@ as int]).0));
            }
            None
        }
    }

    pub fn is_complete(&self, table: &CompletionTable) -> (r: bool)
        requires
            self@ < table@.len(),
        ensures
            r == table@[self@ as int].complete,
    {
        table.entries[self.id].0
    }
}

/// `k` polls of a record that stays incomplete.
pub open spec fn polls(h: CompletionState, k: nat) -> CompletionState
    decreases k,
{
    if k == 0 {
        h
    } else {
        poll_spec(polls(h, (k - 1) as nat)).0
    }
}

/// Tasks that poll before completion each find nothing and are each counted,
/// so completing wakes all of them; once complete, every poll, by any task
/// and through any copy of the handle, sees the recorded outcome and changes
/// nothing.
pub proof fn lemma_completion_seen_by_all(h: CompletionState, k: nat, success: bool)
    requires
        !h.complete,
        h.waiters + k <= u64::MAX,
    ensures
        polls(h, k).waiters == h.waiters + k,
        !polls(h, k).complete,
        forall|j: nat| j < k ==> (#[trigger] poll_spec(polls(h, j))).1 is None,
        ({
            let done = complete_spec(polls(h, k), success);
            &&& poll_spec(done) == (done, Some(success))
            &&& poll_spec(poll_spec(done).0) == (done, Some(success))
        }),
        forall|c: CompletionState| c.complete ==> #[trigger] poll_spec(c) == (c, Some(c.success)),
    decreases k,
{
    if k > 0 {
        lemma_completion_seen_by_all(h, (k - 1) as nat, success);
        assert forall|j: nat| j < k implies (#[trigger] poll_spec(polls(h, j))).1 is None by {
            if j < k - 1 {
                assert(poll_spec(polls(h, j)).1 is None);
            }
        }
    }
}

/// The state of a response body.
pub enum ResponseBytesInner {
    /// An empty body.
    Empty,
    /// A body that has been sent, or abandoned.
    Done,
    /// A buffer sent in one piece.
    Bytes(Vec<u8>),
    /// A body read from a resource: whether to close it at the end, and its id.
    Resource(bool, u32),
    /// A body pushed by a producer through a channel, known by its id.
    V8Stream(u32),
}

/// The model of a body state.
pub enum InnerView {
    Empty,
    Done,
    Bytes(Seq<u8>),
    Resource(bool, u32),
    V8Stream(u32),
}

impl View for ResponseBytesInner {
    type V = InnerView;

    open spec fn view(&self) -> InnerView {
        match self {
            ResponseBytesInner::Empty => InnerView::Empty,
            ResponseBytesInner::Done => InnerView::Done,
            ResponseBytesInner::Bytes(b) => InnerView::Bytes(b@),
            ResponseBytesInner::Resource(a, id) => InnerView::Resource(*a, *id),
            ResponseBytesInner::V8Stream(id) => InnerView::V8Stream(*id),
        }
    }
}

impl ResponseBytesInner {
    /// The exact length of the body, where it is known in advance.
    pub fn len(&self) -> (r: Option<usize>)
        ensures
            r == match self@ {
                InnerView::Empty | InnerView::Done => Some(0usize),
                InnerView::Bytes(b) => Some(b.len() as usize),
                _ => None::<usize>,
            },
    {
        match self {
            ResponseBytesInner::Done => Some(0),
            ResponseBytesInner::Empty => Some(0),
            ResponseBytesInner::Bytes(b) => Some(b.len()),
            ResponseBytesInner::Resource(..) => None,
            ResponseBytesInner::V8Stream(..) => None,
        }
    }
}

/// What the source behind a streamed body gave when it was polled: the
/// pending read of a resource, or the channel of a pushed body.
pub enum SourcePoll {
    /// Nothing yet.
    Pending,
    /// A buffer. From a resource, an empty buffer means that it is exhausted.
    Data(Vec<u8>),
    /// The channel or resource has closed.
    Closed,
    /// The read failed.
    Failed,
}

pub enum SourceView {
    Pending,
    Data(Seq<u8>),
    Closed,
    Failed,
}

impl View for SourcePoll {
    type V = SourceView;

    open spec fn view(&self) -> SourceView {
        match self {
            SourcePoll::Pending => SourceView::Pending,
            SourcePoll::Data(b) => SourceView::Data(b@),
            SourcePoll::Closed => SourceView::Closed,
            SourcePoll::Failed => SourceView::Failed,
        }
    }
}

/// What a poll of the body gives to the HTTP layer.
pub enum Frame {
    /// Poll again later.
    Pending,
    /// The next piece of the body.
    Data(Vec<u8>),
    /// The body is over.
    End,
    /// The body failed part way.
    Error,
}

pub enum FrameView {
    Pending,
    Data(Seq<u8>),
    End,
    Error,
}

impl View for Frame {
    type V = FrameView;

    open spec fn view(&self) -> FrameView {
        match self {
            Frame::Pending => FrameView::Pending,
            Frame::Data(b) => FrameView::Data(b@),
            Frame::End => FrameView::End,
            Frame::Error => FrameView::Error,
        }
    }
}

/// What the caller must do to the source after a poll.
#[derive(Clone, Copy, PartialEq, Eq, Structural)]
pub enum SourceAction {
    Nothing,
    /// Start the next read of this many bytes from the resource.
    Read(u32, usize),
    /// Close the resource.
    Close(u32),
}

/// The result of one poll.
pub struct PollOutcome {
    pub frame: Frame,
    pub action: SourceAction,
}

/// The model of a response body: its state and the id of its completion
/// record.
pub struct ResponseModel {
    pub inner: InnerView,
    pub handle: usize,
}

/// Ends the body, once: a body that is already done stays as it is and its
/// record is not completed again. Gives the new body, the new records, and
/// the state that was replaced.
pub open spec fn finish_spec(m: ResponseModel, t: Seq<CompletionState>, success: bool) -> (
    ResponseModel,
    Seq<CompletionState>,
    InnerView,
) {
    if m.inner is Done {
        (m, t, InnerView::Done)
    } else {
        (
            ResponseModel { inner: InnerView::Done, handle: m.handle },
            t.update(m.handle as int, complete_spec(t[m.handle as int], success)),
            m.inner,
        )
    }
}

/// One poll of the body, given what its source gave.
pub open spec fn poll_body_spec(m: ResponseModel, t: Seq<CompletionState>, src: SourceView) -> (
    ResponseModel,
    Seq<CompletionState>,
    FrameView,
    SourceAction,
) {
    match m.inner {
        InnerView::Empty | InnerView::Done => (m, t, FrameView::End, SourceAction::Nothing),
        InnerView::Bytes(b) => {
            let f = finish_spec(m, t, true);
            (f.0, f.1, FrameView::Data(b), SourceAction::Nothing)
        },
        InnerView::Resource(auto_close, id) => match src {
            SourceView::Pending => (m, t, FrameView::Pending, SourceAction::Nothing),
            SourceView::Failed => {
                let f = finish_spec(m, t, false);
                (f.0, f.1, FrameView::Error, SourceAction::Nothing)
            },
            SourceView::Data(b) => if b.len() > 0 {
                (m, t, FrameView::Data(b), SourceAction::Read(id, RESOURCE_READ_SIZE))
            } else {
                let f = finish_spec(m, t, true);
                (f.0, f.1, FrameView::End, if auto_close { SourceAction::Close(id) } else { SourceAction::Nothing })
            },
            SourceView::Closed => {
                let f = finish_spec(m, t, true);
                (f.0, f.1, FrameView::End, if auto_close { SourceAction::Close(id) } else { SourceAction::Nothing })
            },
        },
        InnerView::V8Stream(_) => match src {
            SourceView::Pending => (m, t, FrameView::Pending, SourceAction::Nothing),
            SourceView::Data(b) => (m, t, FrameView::Data(b), SourceAction::Nothing),
            SourceView::Closed => {
                let f = finish_spec(m, t, true);
                (f.0, f.1, FrameView::End, SourceAction::Nothing)
            },
            SourceView::Failed => {
                let f = finish_spec(m, t, false);
                (f.0, f.1, FrameView::Error, SourceAction::Nothing)
            },
        },
    }
}

/// What dropping the body does: an empty body counts as sent, any other
/// body that is not done as failed.
pub open spec fn release_spec(m: ResponseModel, t: Seq<CompletionState>) -> (ResponseModel, Seq<CompletionState>) {
    let f = finish_spec(m, t, m.inner is Empty);
    (f.0, f.1)
}

/// A response body and the handle that reports how it ended.
pub struct ResponseBytes(ResponseBytesInner, CompletionHandle);

impl View for ResponseBytes {
    type V = ResponseModel;

    closed spec fn view(&self) -> ResponseModel {
        ResponseModel { inner: self.0@, handle: self.1@ }
    }
}

impl ResponseBytes {
    /// An empty body with a new completion record.
    pub fn new(table: &mut CompletionTable) -> (r: ResponseBytes)
        requires
            old(table)@.len() < usize::MAX,
        ensures
            r@ == (ResponseModel { inner: InnerView::Empty, handle: old(table)@.len() as usize }),
            final(table)@ == old(table)@.push(fresh_state()),
    {
        ResponseBytes(ResponseBytesInner::Empty, CompletionHandle::new(table))
    }

    /// Gives the body its content; this happens once, on an empty body.
    pub fn initialize(&mut self, inner: ResponseBytesInner)
        requires
            old(self)@.inner is Empty,
        ensures
            final(self)@ == (ResponseModel { inner: inner@, handle: old(self)@.handle }),
    {
        self.0 = inner;
    }

    /// A handle on the body's completion record: it sees the outcome however
    /// early it was taken.
    pub fn completion_handle(&self) -> (r: CompletionHandle)
        ensures
            r@ == self@.handle,
    {
        self.1
    }

    fn complete(&mut self, table: &mut CompletionTable, success: bool) -> (r: ResponseBytesInner)
        requires
            old(self)@.handle < old(table)@.len(),
        ensures
            (final(self)@, final(table)@, r@) == finish_spec(old(self)@, old(table)@, success),
    {
        if matches!(self.0, ResponseBytesInner::Done) {
            return ResponseBytesInner::Done;
        }
        let mut current = ResponseBytesInner::Done;
        std::mem::swap(&mut self.0, &mut current);
        self.1.complete(table, success);
        current
    }

    /// Polls the body for its next frame. `src` is what polling the body's
    /// source gave; it is not looked at for a static or empty body.
    pub fn poll_frame(&mut self, table: &mut CompletionTable, src: SourcePoll) -> (r: PollOutcome)
        requires
            old(self)@.handle < old(table)@.len(),
        ensures
            (final(self)@, final(table)@, r.frame@, r.action) == poll_body_spec(old(self)@, old(table)@, src@),
    {
        match &self.0 {
            ResponseBytesInner::Done | ResponseBytesInner::Empty => {
                PollOutcome { frame: Frame::End, action: SourceAction::Nothing }
            },
            ResponseBytesInner::Bytes(_) => {
                let done = self.complete(table, true);
                match done {
                    ResponseBytesInner::Bytes(data) => PollOutcome { frame: Frame::Data(data), action: SourceAction::Nothing },
                    _ => PollOutcome { frame: Frame::End, action: SourceAction::Nothing },
                }
            },
            ResponseBytesInner::Resource(auto_close, id) => {
                let auto_close = *auto_close;
                let id = *id;
                match src {
                    SourcePoll::Pending => PollOutcome { frame: Frame::Pending, action: SourceAction::Nothing },
                    SourcePoll::Failed => {
                        self.complete(table, false);
                        PollOutcome { frame: Frame::Error, action: SourceAction::Nothing }
                    },
                    SourcePoll::Data(buf) => {
                        if buf.len() > 0 {
                            PollOutcome { frame: Frame::Data(buf), action: SourceAction::Read(id, RESOURCE_READ_SIZE) }
                        } else {
                            self.complete(table, true);
                            let action = if auto_close { SourceAction::Close(id) } else { SourceAction::Nothing };
                            PollOutcome { frame: Frame::End, action }
                        }
                    },
                    SourcePoll::Closed => {
                        self.complete(table, true);
                        let action = if auto_close { SourceAction::Close(id) } else { SourceAction::Nothing };
                        PollOutcome { frame: Frame::End, action }
                    },
                }
            },
            ResponseBytesInner::V8Stream(_) => match src {
                SourcePoll::Pending => PollOutcome { frame: Frame::Pending, action: SourceAction::Nothing },
                SourcePoll::Data(buf) => PollOutcome { frame: Frame::Data(buf), action: SourceAction::Nothing },
                SourcePoll::Closed => {
                    self.complete(table, true);
                    PollOutcome { frame: Frame::End, action: SourceAction::Nothing }
                },
                SourcePoll::Failed => {
                    self.complete(table, false);
                    PollOutcome { frame: Frame::Error, action: SourceAction::Nothing }
                },
            },
        }
    }

    /// Whether the body has nothing more to send.
    pub fn is_end_stream(&self) -> (r: bool)
        ensures
            r == (self@.inner is Done || self@.inner is Empty),
    {
        matches!(self.0, ResponseBytesInner::Done | ResponseBytesInner::Empty)
    }

    /// The exact size of the body, where it is known in advance.
    pub fn size_hint(&self) -> (r: Option<u64>)
        ensures
            r == match self@.inner {
                InnerView::Empty | InnerView::Done => Some(0u64),
                InnerView::Bytes(b) => Some(b.len() as u64),
                _ => None::<u64>,
            },
    {
        match &self.0 {
            ResponseBytesInner::Bytes(b) => Some(b.len() as u64),
            ResponseBytesInner::Resource(..) | ResponseBytesInner::V8Stream(..) => None,
            _ => Some(0),
        }
    }

    /// Lets go of the body. One that had not been done yet is completed now:
    /// successfully if it was empty, as failed otherwise. Returns how many
    /// waiting tasks have to be woken.
    pub fn release(&mut self, table: &mut CompletionTable) -> (wake: u64)
        requires
            old(self)@.handle < old(table)@.len(),
        ensures
            (final(self)@, final(table)@) == release_spec(old(self)@, old(table)@),
            wake == if old(self)@.inner is Done { 0 } else { old(table)@[old(self)@.handle as int].waiters },
    {
        if matches!(self.0, ResponseBytesInner::Done) {
            return 0;
        }
        let empty = matches!(self.0, ResponseBytesInner::Empty);
        let mut current = ResponseBytesInner::Done;
        std::mem::swap(&mut self.0, &mut current);
        self.1.complete(table, empty)
    }
}

/// An empty body let go without being polled reports success, and a body
/// read from a resource and let go before its end reports failure, to every
/// handle taken from it, before or after. A body that is done is never
/// completed again.
pub proof fn lemma_release_outcome(m: ResponseModel, t: Seq<CompletionState>)
    requires
        m.handle < t.len(),
    ensures
        ({
            let (m2, t2) = release_spec(m, t);
            &&& m2.inner is Done
            &&& m2.handle == m.handle
            &&& t2.len() == t.len()
            &&& m.inner is Empty ==> poll_spec(t2[m.handle as int]).1 == Some(true)
            &&& m.inner is Resource ==> poll_spec(t2[m.handle as int]).1 == Some(false)
            &&& m.inner is Done ==> m2 == m && t2 == t
            &&& forall|i: int| 0 <= i < t.len() && i != m.handle ==> t2[i] == t[i]
        }),
{
}

/// A body read from a resource stays in flight, with its record untouched,
/// for as long as the resource keeps giving data; let go then, it reports
/// failure.
pub proof fn lemma_resource_mid_stream(m: ResponseModel, t: Seq<CompletionState>, b: Seq<u8>)
    requires
        m.inner is Resource,
        m.handle < t.len(),
        b.len() > 0,
    ensures
        poll_body_spec(m, t, SourceView::Data(b)).0 == m,
        poll_body_spec(m, t, SourceView::Data(b)).1 == t,
        poll_spec(release_spec(m, t).1[m.handle as int]).1 == Some(false),
{
}

} // verus!
