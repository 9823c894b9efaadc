//! Bodies between the session, which one connection task drives, and the
//! proxy's stack, which may poll them from other tasks.
//!
//! On the receive side data is queued as it comes and read from any task. Flow
//! control is explicit: bytes are reported as consumed only after the consumer
//! has read them, so window updates reflect true end-to-end backpressure. On
//! the send side the driver polls the stack's body into a queue, which the
//! session drains.
use vstd::prelude::*;

use bytes::Bytes;
use http::HeaderMap;
use std::collections::VecDeque;

use crate::fifo::{moves, Moved};
use crate::h2::chunk::{chunk_bytes, chunk_len, joined, joined_push, take_front};
use crate::h2::error::{
    Error, Reason, CANCEL, ENHANCE_YOUR_CALM, INTERNAL_ERROR, REFUSED_STREAM,
};
use crate::h2::fields::{fill_trailer_nv, nv_pairs, orders_its_values, sendable, Nv};
use crate::headers::header_order;
use crate::text::utf8;

verus! {

/// The streams whose consumers have read bytes since the driver last asked.
///
/// A consumer files its stream here when it reads, so the driver registers one
/// waker and visits only those streams instead of walking every open one.
#[derive(Debug)]
pub struct ConnRecv {
    pub dirty: Vec<i32>,
}

impl ConnRecv {
    pub fn new() -> (r: Self)
        ensures
            r.dirty@ == Seq::<i32>::empty(),
    {
        ConnRecv { dirty: Vec::new() }
    }

    /// A consumer of `sid` has read bytes or is gone.
    pub fn mark(&mut self, sid: i32)
        ensures
            final(self).dirty@ == old(self).dirty@.push(sid),
    {
        self.dirty.push(sid);
    }

    /// Take the streams that were marked, in order.
    pub fn take_dirty(&mut self) -> (r: Vec<i32>)
        ensures
            r@ == old(self).dirty@,
            final(self).dirty@ == Seq::<i32>::empty(),
    {
        let mut out: Vec<i32> = Vec::new();
        out.append(&mut self.dirty);
        assert(out@ =~= old(self).dirty@);
        out
    }
}

/// The receive side of a stream's body, between the driver and the consumer.
#[derive(Debug)]
pub struct RecvShared {
    pub chunks: VecDeque<Bytes>,
    /// Bytes received and not read.
    pub buffered: usize,
    pub trailers: Option<HeaderMap>,
    pub eof: bool,
    pub error: Option<Error>,
    /// The consumer dropped the body before its end.
    pub dropped: bool,
    /// Bytes read by the consumer, not yet reported as consumed.
    pub consumed_unreported: usize,
}

/// What a consumer's poll finds.
#[derive(Debug)]
pub enum RecvFrame {
    Data(Bytes),
    Trailers(HeaderMap),
    Failed(Error),
    /// The body is complete.
    End,
    /// Nothing yet; the consumer is to be woken by the driver's next change.
    Pending,
}

impl RecvShared {
    /// What is buffered is what is queued.
    pub open spec fn wf(self) -> bool {
        &&& self.buffered == joined(self.chunks@).len()
        &&& self.buffered + self.consumed_unreported <= usize::MAX
    }

    /// The bytes that the consumer has not read.
    pub open spec fn queued(self) -> Seq<u8> {
        joined(self.chunks@)
    }

    /// The consumer has seen everything.
    pub open spec fn ended(self) -> bool {
        self.eof && self.chunks@.len() == 0 && self.trailers is None
    }

    pub fn new() -> (r: Self)
        ensures
            r.wf(),
            r.chunks@.len() == 0,
            r.queued() == Seq::<u8>::empty(),
            r.buffered == 0,
            r.trailers is None,
            !r.eof && r.error is None && !r.dropped && r.consumed_unreported == 0,
    {
        RecvShared {
            chunks: VecDeque::new(),
            buffered: 0,
            trailers: None,
            eof: false,
            error: None,
            dropped: false,
            consumed_unreported: 0,
        }
    }

    /// Data came. The consumer is to be woken.
    pub fn push_chunk(&mut self, data: Bytes)
        requires
            old(self).wf(),
            old(self).buffered + old(self).consumed_unreported + chunk_bytes(data).len()
                <= usize::MAX,
        ensures
            final(self).wf(),
            moves(old(self).queued(), final(self).queued(), Moved::In(chunk_bytes(data))),
            final(self).chunks@ == old(self).chunks@.push(data),
            *final(self) == (RecvShared {
                chunks: final(self).chunks,
                buffered: (old(self).buffered + chunk_bytes(data).len()) as usize,
                ..*old(self)
            }),
            credited(*old(self), *final(self), 0, 0),
    {
        proof {
            joined_push(self.chunks@, data);
        }
        self.buffered = self.buffered + chunk_len(&data);
        self.chunks.push_back(data);
    }

    /// The trailers came. The consumer is to be woken.
    pub fn set_trailers(&mut self, trailers: HeaderMap)
        ensures
            *final(self) == (RecvShared { trailers: Some(trailers), ..*old(self) }),
    {
        self.trailers = Some(trailers);
    }

    /// The body is complete. The consumer is to be woken.
    pub fn set_eof(&mut self)
        ensures
            *final(self) == (RecvShared { eof: true, ..*old(self) }),
    {
        self.eof = true;
    }

    /// The stream failed. The consumer is to be woken.
    pub fn set_error(&mut self, error: Error)
        ensures
            *final(self) == (RecvShared { error: Some(error), ..*old(self) }),
    {
        self.error = Some(error);
    }

    /// Bytes the consumer read since the last call.
    pub fn take_consumed(&mut self) -> (r: usize)
        ensures
            r == old(self).consumed_unreported,
            *final(self) == (RecvShared { consumed_unreported: 0, ..*old(self) }),
            credited(*old(self), *final(self), 0, r as nat),
    {
        let n: usize = self.consumed_unreported;
        self.consumed_unreported = 0;
        n
    }

    pub fn is_dropped(&self) -> (r: bool)
        ensures
            r == self.dropped,
    {
        self.dropped
    }

    /// Bytes received but not yet read by the consumer.
    pub fn unread(&self) -> (r: usize)
        requires
            self.wf(),
        ensures
            r == self.queued().len(),
    {
        self.buffered
    }

    /// The consumer asks for the next frame: what was queued before an error
    /// or the end is delivered first. After `Data` the consumer's stream is to
    /// be marked for the driver.
    pub fn poll_frame(&mut self) -> (r: RecvFrame)
        requires
            old(self).wf(),
        ensures
            final(self).wf(),
            if old(self).chunks@.len() > 0 {
                &&& r == RecvFrame::Data(old(self).chunks@[0])
                &&& final(self).chunks@ == old(self).chunks@.drop_first()
                &&& moves(
                    old(self).queued(),
                    final(self).queued(),
                    Moved::Out(chunk_bytes(old(self).chunks@[0])),
                )
                &&& final(self).consumed_unreported == old(self).consumed_unreported + chunk_bytes(
                    old(self).chunks@[0],
                ).len()
                &&& *final(self) == (RecvShared {
                    chunks: final(self).chunks,
                    buffered: final(self).buffered,
                    consumed_unreported: final(self).consumed_unreported,
                    ..*old(self)
                })
            } else if old(self).error is Some {
                r == RecvFrame::Failed(old(self).error->0) && *final(self) == *old(self)
            } else if old(self).trailers is Some {
                r == RecvFrame::Trailers(old(self).trailers->0) && *final(self) == (RecvShared {
                    trailers: None,
                    ..*old(self)
                })
            } else {
                &&& *final(self) == *old(self)
                &&& r is End || r is Pending
                &&& r is End <==> old(self).eof
            },
            credited(
                *old(self),
                *final(self),
                match r {
                    RecvFrame::Data(data) => chunk_bytes(data).len(),
                    _ => 0,
                },
                0,
            ),
    {
        if self.chunks.len() > 0 {
            if let Some(data) = self.chunks.pop_front() {
                assert(self.chunks@ =~= old(self).chunks@.drop_first());
                let n: usize = chunk_len(&data);
                self.buffered = self.buffered - n;
                self.consumed_unreported = self.consumed_unreported + n;
                return RecvFrame::Data(data);
            }
        }
        if let Some(error) = self.error {
            return RecvFrame::Failed(error);
        }
        if let Some(trailers) = self.trailers.take() {
            return RecvFrame::Trailers(trailers);
        }
        if self.eof {
            RecvFrame::End
        } else {
            RecvFrame::Pending
        }
    }

    pub fn is_end_stream(&self) -> (r: bool)
        ensures
            r == self.ended(),
    {
        self.eof && self.chunks.len() == 0 && self.trailers.is_none()
    }

    /// The consumer is gone. Its stream is to be marked for the driver.
    pub fn release(&mut self)
        ensures
            *final(self) == (RecvShared {
                dropped: old(self).dropped || !old(self).ended(),
                ..*old(self)
            }),
    {
        if !self.is_end_stream() {
            self.dropped = true;
        }
    }
}

/// Cap on bytes buffered from the stack's body before it is not polled on.
pub const SEND_BUFFER_CAP: usize = 65536;

/// How many send states a connection keeps for reuse.
pub const POOL_CAP: usize = 64;

/// The send side of a stream's body, owned by the connection's driver. `B` is
/// the stack's body.
#[derive(Debug)]
pub struct SendBody<B> {
    pub chunks: VecDeque<Bytes>,
    pub buffered: usize,
    pub body: Option<B>,
    pub trailers: Option<HeaderMap>,
    /// The stack's body finished; once the queue drains, the end follows.
    pub done: bool,
    /// The session was told to wait and has to be resumed.
    pub deferred: bool,
    /// The stack's body failed: the stream is reset with this reason.
    pub failed: Option<Reason>,
}

/// What a poll of the stack's body gave.
#[derive(Debug)]
pub enum BodyPoll {
    Data(Bytes),
    Trailers(HeaderMap),
    /// A frame that is neither data nor trailers.
    Unknown,
    Failed,
    End,
    Pending,
}

/// What the session's read of a body gives.
#[derive(Debug)]
pub enum SendRead {
    /// Reset the stream with this code, and fail the read.
    Reset(u32),
    Data(Vec<u8>),
    /// Nothing yet: wait until the stream is resumed.
    Deferred,
    /// The end. Trailers, where there are any, are submitted and end the stream.
    End(Option<Vec<Nv>>),
}

/// Trailers end a body as a block of what may be sent of them, in the map's
/// order, or, where that is nothing, as no block.
pub open spec fn trailers_read(trailers: HeaderMap, nv: Option<Vec<Nv>>) -> bool {
    let fields = header_order(trailers);
    &&& orders_its_values(trailers)
    &&& if sendable(fields).len() == 0 {
        nv is None
    } else {
        nv is Some && nv_pairs(nv->0@) == sendable(fields)
    }
}

/// The code that a stream is reset with for `reason`.
pub open spec fn spec_reason_code(reason: Reason) -> u32 {
    if reason.0 == CANCEL || reason.0 == REFUSED_STREAM || reason.0 == ENHANCE_YOUR_CALM {
        reason.0
    } else {
        INTERNAL_ERROR
    }
}

pub fn reason_code(reason: Reason) -> (r: u32)
    ensures
        r == spec_reason_code(reason),
{
    if reason.0 == CANCEL || reason.0 == REFUSED_STREAM || reason.0 == ENHANCE_YOUR_CALM {
        reason.0
    } else {
        INTERNAL_ERROR
    }
}

impl<B> SendBody<B> {
    pub open spec fn wf(self) -> bool {
        self.buffered == joined(self.chunks@).len()
    }

    /// The bytes that the session has not read.
    pub open spec fn queued(self) -> Seq<u8> {
        joined(self.chunks@)
    }

    /// A send state that nothing has happened to yet.
    pub open spec fn fresh(self, body: B) -> bool {
        &&& self.wf()
        &&& self.chunks@.len() == 0
        &&& self.buffered == 0
        &&& self.body == Some(body)
        &&& self.trailers is None
        &&& !self.done && !self.deferred && self.failed is None
    }

    pub fn new(body: B) -> (r: Self)
        ensures
            r.fresh(body),
    {
        SendBody {
            chunks: VecDeque::new(),
            buffered: 0,
            body: Some(body),
            trailers: None,
            done: false,
            deferred: false,
            failed: None,
        }
    }

    /// Re-arm for a new stream.
    pub fn reset(&mut self, body: B)
        ensures
            final(self).fresh(body),
    {
        self.chunks.clear();
        self.buffered = 0;
        self.body = Some(body);
        self.trailers = None;
        self.done = false;
        self.deferred = false;
        self.failed = None;
    }

    /// The stack's body is to be polled.
    pub open spec fn spec_wants_poll(self) -> bool {
        self.buffered < SEND_BUFFER_CAP && self.body is Some
    }

    pub fn wants_poll(&self) -> (r: bool)
        ensures
            r == self.spec_wants_poll(),
    {
        self.buffered < SEND_BUFFER_CAP && self.body.is_some()
    }

    /// Take what a poll of the stack's body gave. Returns whether new data or
    /// a terminal state appeared, and whether to poll on while the queue has
    /// room.
    pub fn pump(&mut self, polled: BodyPoll) -> (r: (bool, bool))
        requires
            old(self).wf(),
            old(self).spec_wants_poll(),
            polled matches BodyPoll::Data(data) ==> old(self).buffered + chunk_bytes(data).len()
                <= usize::MAX,
        ensures
            final(self).wf(),
            match polled {
                BodyPoll::Data(data) => {
                    &&& r == (chunk_bytes(data).len() > 0, true)
                    &&& moves(old(self).queued(), final(self).queued(), Moved::In(chunk_bytes(data)))
                    &&& *final(self) == (SendBody {
                        chunks: final(self).chunks,
                        buffered: final(self).buffered,
                        ..*old(self)
                    })
                },
                BodyPoll::Trailers(trailers) => r == (true, true) && *final(self) == (SendBody {
                    trailers: Some(trailers),
                    ..*old(self)
                }),
                BodyPoll::Unknown => r == (false, true) && *final(self) == *old(self),
                BodyPoll::Failed => r == (true, false) && *final(self) == (SendBody {
                    failed: Some(Reason(INTERNAL_ERROR)),
                    body: None,
                    done: true,
                    ..*old(self)
                }),
                BodyPoll::End => r == (true, false) && *final(self) == (SendBody {
                    body: None,
                    done: true,
                    ..*old(self)
                }),
                BodyPoll::Pending => r == (false, false) && *final(self) == *old(self),
            },
    {
        match polled {
            BodyPoll::Data(data) => {
                let n: usize = chunk_len(&data);
                if n > 0 {
                    proof {
                        joined_push(self.chunks@, data);
                    }
                    self.buffered = self.buffered + n;
                    self.chunks.push_back(data);
                }
                assert(self.queued() =~= old(self).queued() + chunk_bytes(data));
                (n > 0, true)
            },
            BodyPoll::Trailers(trailers) => {
                self.trailers = Some(trailers);
                (true, true)
            },
            BodyPoll::Unknown => (false, true),
            BodyPoll::Failed => {
                self.failed = Some(Reason(INTERNAL_ERROR));
                self.body = None;
                self.done = true;
                (true, false)
            },
            BodyPoll::End => {
                self.body = None;
                self.done = true;
                (true, false)
            },
            BodyPoll::Pending => (false, false),
        }
    }

    /// A deferred stream has something to say again.
    pub open spec fn resumable(self) -> bool {
        self.deferred && (self.chunks@.len() > 0 || self.done)
    }

    /// Whether the session is to be told to resume the stream.
    pub fn resume(&mut self) -> (r: bool)
        requires
            old(self).wf(),
        ensures
            final(self).wf(),
            r == old(self).resumable(),
            *final(self) == if r {
                SendBody { deferred: false, ..*old(self) }
            } else {
                *old(self)
            },
    {
        if self.deferred && (self.chunks.len() > 0 || self.done) {
            self.deferred = false;
            true
        } else {
            false
        }
    }

    /// The session asks for at most `length` bytes of the body.
    pub fn read(&mut self, length: usize) -> (r: SendRead)
        requires
            old(self).wf(),
        ensures
            final(self).wf(),
            if old(self).failed is Some {
                r == SendRead::Reset(spec_reason_code(old(self).failed->0)) && *final(self) == *old(
                    self,
                )
            } else if length > 0 && old(self).queued().len() > 0 {
                // As much as fits, in order.
                &&& r matches SendRead::Data(data) && {
                    &&& data@.len() == if length < old(self).queued().len() {
                        length as int
                    } else {
                        old(self).queued().len() as int
                    }
                    &&& moves(old(self).queued(), final(self).queued(), Moved::Out(data@))
                }
                &&& *final(self) == (SendBody {
                    chunks: final(self).chunks,
                    buffered: final(self).buffered,
                    ..*old(self)
                })
            } else if !old(self).done {
                &&& r is Deferred
                &&& final(self).queued() == old(self).queued()
                &&& *final(self) == (SendBody {
                    deferred: true,
                    chunks: final(self).chunks,
                    ..*old(self)
                })
            } else {
                &&& final(self).queued() == old(self).queued()
                &&& *final(self) == (SendBody {
                    trailers: None,
                    chunks: final(self).chunks,
                    ..*old(self)
                })
                &&& r matches SendRead::End(nv) && match old(self).trailers {
                    None => nv is None,
                    Some(trailers) => trailers_read(trailers, nv),
                }
            },
    {
        if let Some(reason) = self.failed {
            return SendRead::Reset(reason_code(reason));
        }
        let data = take_front(&mut self.chunks, length);
        proof {
            let before = joined(old(self).chunks@);
            let after = joined(self.chunks@);
            assert((data@ + after).len() == data@.len() + after.len());
            if data@.len() == 0 {
                assert(data@ + after =~= after);
            }
        }
        if data.len() > 0 {
            self.buffered = self.buffered - data.len();
            return SendRead::Data(data);
        }
        if !self.done {
            self.deferred = true;
            return SendRead::Deferred;
        }
        match self.trailers.take() {
            None => SendRead::End(None),
            Some(trailers) => {
                let nv = fill_trailer_nv(&trailers);
                assert(nv_pairs(nv@).len() == nv@.len());
                if nv.len() == 0 {
                    SendRead::End(None)
                } else {
                    SendRead::End(Some(nv))
                }
            },
        }
    }
}

/// Send states that streams have given back.
///
/// Streams are short-lived; reusing their states keeps the queues' capacity.
#[derive(Debug)]
pub struct SendBodyPool<B> {
    pub free: Vec<SendBody<B>>,
}

impl<B> SendBodyPool<B> {
    pub open spec fn wf(self) -> bool {
        self.free@.len() <= POOL_CAP
    }

    /// What is free once a send state was taken.
    pub open spec fn after_take(self) -> Seq<SendBody<B>> {
        if self.free@.len() > 0 {
            self.free@.drop_last()
        } else {
            self.free@
        }
    }

    /// The pool once `send` was given back: it is kept while there is room, with
    /// nothing of its stream.
    pub open spec fn gets_back(self, after: Self, send: SendBody<B>) -> bool {
        if self.free@.len() < POOL_CAP {
            &&& after.free@.len() == self.free@.len() + 1
            &&& after.free@.drop_last() == self.free@
            &&& after.free@.last() == (SendBody {
                body: None,
                trailers: None,
                chunks: after.free@.last().chunks,
                ..send
            })
            &&& after.free@.last().chunks@.len() == 0
        } else {
            after.free@ == self.free@
        }
    }

    pub fn new() -> (r: Self)
        ensures
            r.wf(),
            r.free@.len() == 0,
    {
        SendBodyPool { free: Vec::new() }
    }

    /// A send state for `body`, reused where one is free.
    pub fn take(&mut self, body: B) -> (r: SendBody<B>)
        requires
            old(self).wf(),
        ensures
            final(self).wf(),
            r.fresh(body),
            final(self).free@ == old(self).after_take(),
    {
        match self.free.pop() {
            Some(mut send) => {
                send.reset(body);
                send
            },
            None => SendBody::new(body),
        }
    }

    /// Give a send state back. It keeps nothing of its stream.
    pub fn put(&mut self, send: SendBody<B>)
        requires
            old(self).wf(),
        ensures
            final(self).wf(),
            old(self).gets_back(*final(self), send),
    {
        let mut send = send;
        if self.free.len() < POOL_CAP {
            send.body = None;
            send.chunks.clear();
            send.trailers = None;
            self.free.push(send);
            assert(self.free@.drop_last() =~= old(self).free@);
        }
    }
}

/// A step in which the consumer read `read` bytes and `reported` bytes were
/// reported as consumed.
pub open spec fn credited(before: RecvShared, after: RecvShared, read: nat, reported: nat) -> bool {
    before.consumed_unreported + read == after.consumed_unreported + reported
}

/// A run of a body: how much each step read, and how much it reported.
pub open spec fn is_credit_run(states: Seq<RecvShared>, steps: Seq<(nat, nat)>) -> bool {
    &&& states.len() == steps.len() + 1
    &&& forall|k: int|
        0 <= k < steps.len() ==> credited(
            states[k],
            states[k + 1],
            (#[trigger] steps[k]).0,
            steps[k].1,
        )
}

/// How much was read, and how much was reported.
pub open spec fn credit_sums(steps: Seq<(nat, nat)>) -> (nat, nat)
    decreases steps.len(),
{
    if steps.len() == 0 {
        (0, 0)
    } else {
        let before = credit_sums(steps.drop_last());
        (before.0 + steps.last().0, before.1 + steps.last().1)
    }
}

/// Every byte that is read is reported once: over any run of a new body, what
/// was reported and what is still to be reported are the bytes that the
/// consumer has read. So nothing is reported that was not read before.
pub proof fn reads_are_reported_once(states: Seq<RecvShared>, steps: Seq<(nat, nat)>)
    requires
        is_credit_run(states, steps),
        states[0].consumed_unreported == 0,
    ensures
        credit_sums(steps).0 == credit_sums(steps).1 + states.last().consumed_unreported,
    decreases steps.len(),
{
    if steps.len() > 0 {
        let n = steps.len() as int;
        let before = states.drop_last();
        let earlier = steps.drop_last();
        assert forall|k: int| 0 <= k < earlier.len() implies credited(
            before[k],
            before[k + 1],
            (#[trigger] earlier[k]).0,
            earlier[k].1,
        ) by {
            assert(steps[k] == earlier[k]);
        }
        reads_are_reported_once(before, earlier);
        assert(credited(states[n - 1], states[n - 1 + 1], steps[n - 1].0, steps[n - 1].1));
        assert(before.last() == states[n - 1]);
    }
}

/// A body is delivered in order and once: what the consumer reads, followed by
/// what is still queued, is what came; and every byte read is credited to the
/// stream's window once it has been read, not before.
pub proof fn credits_follow_reads(before: RecvShared, after: RecvShared, data: Bytes)
    requires
        before.wf(),
        after.wf(),
        before.chunks@.len() > 0,
        data == before.chunks@[0],
        after.chunks@ == before.chunks@.drop_first(),
        after.consumed_unreported == before.consumed_unreported + chunk_bytes(data).len(),
    ensures
        before.queued() == chunk_bytes(data) + after.queued(),
        before.buffered + before.consumed_unreported == after.buffered + after.consumed_unreported,
{
}

/// What was queued is read before the error, the error comes before the
/// trailers, the trailers come once, and the end comes last: a poll gives the
/// first of these that there is. Only what a poll gives is taken, but an error
/// and the end stay.
pub proof fn a_body_is_polled_in_its_order()
    ensures
        forall|body: &mut RecvShared, frame: RecvFrame| #[trigger]
            call_ensures(RecvShared::poll_frame, (body,), frame) ==> {
                let data = body.chunks@.len() > 0;
                &&& data ==> frame == RecvFrame::Data(body.chunks@[0]) && final(body).chunks@
                    == body.chunks@.drop_first() && final(body).consumed_unreported
                    == body.consumed_unreported + chunk_bytes(body.chunks@[0]).len()
                &&& !data ==> final(body).chunks@ == body.chunks@
                    && final(body).consumed_unreported == body.consumed_unreported
                &&& !data && body.error is Some ==> frame == RecvFrame::Failed(body.error->0)
                &&& !data && body.error is None && body.trailers is Some ==> frame
                    == RecvFrame::Trailers(body.trailers->0) && final(body).trailers is None
                &&& !data && body.error is None && body.trailers is None && body.eof ==> frame is End
                &&& !data && body.error is None && body.trailers is None && !body.eof ==> frame
                    is Pending
                &&& data || body.error is Some ==> final(body).trailers == body.trailers
                &&& final(body).error == body.error
                &&& final(body).eof == body.eof
                &&& final(body).dropped == body.dropped
            },
{
}

/// A body is at its end exactly where it is complete and nothing of it is left
/// to read, and a consumer that goes before then is known to be gone.
pub proof fn a_body_ends_when_all_is_read()
    ensures
        forall|body: RecvShared, r: bool| #[trigger]
            call_ensures(RecvShared::is_end_stream, (&body,), r) ==> r == (body.eof
                && body.chunks@.len() == 0 && body.trailers is None),
        forall|body: &mut RecvShared| #[trigger]
            call_ensures(RecvShared::release, (body,), ()) ==> {
                let seen = body.eof && body.chunks@.len() == 0 && body.trailers is None;
                &&& !seen ==> final(body).dropped
                &&& seen ==> final(body).dropped == body.dropped
                &&& final(body).chunks == body.chunks && final(body).eof == body.eof
            },
        forall|body: RecvShared, r: bool| #[trigger]
            call_ensures(RecvShared::is_dropped, (&body,), r) ==> r == body.dropped,
{
}

/// Only a stream that is cancelled, refused or told to calm down is reset with
/// the reason's own code; for any other reason the code is that of an internal
/// error.
pub proof fn three_reasons_keep_their_code(reason: Reason, code: u32)
    requires
        call_ensures(reason_code, (reason,), code),
    ensures
        reason.0 == 7 || reason.0 == 8 || reason.0 == 11 ==> code == reason.0,
        reason.0 != 7 && reason.0 != 8 && reason.0 != 11 ==> code == 2,
{
}

/// The stack's body is polled while it is there and less than 64 KiB wait to be
/// sent.
pub proof fn a_full_queue_is_not_polled_into<B>(send: SendBody<B>, r: bool)
    requires
        call_ensures(SendBody::<B>::wants_poll, (&send,), r),
    ensures
        r <==> send.buffered < 65536 && send.body is Some,
{
}

/// What the stack's body gives is queued behind what waits, or ends the body: a
/// failure resets the stream as an internal error, and nothing is polled after
/// the end or a failure. The first answer says whether there is something new
/// for the session, the second whether to poll on.
pub proof fn a_poll_fills_the_queue<B>(polled: BodyPoll)
    ensures
        forall|send: &mut SendBody<B>, r: (bool, bool)| #[trigger]
            call_ensures(SendBody::<B>::pump, (send, polled), r) ==> {
                let given = match polled {
                    BodyPoll::Data(data) => chunk_bytes(data),
                    _ => Seq::empty(),
                };
                &&& joined(final(send).chunks@) == joined(send.chunks@) + given
                &&& r.0 == (given.len() > 0 || polled is Trailers || polled is Failed || polled
                    is End)
                &&& r.1 == (polled is Data || polled is Trailers || polled is Unknown)
                &&& polled is Trailers ==> final(send).trailers == Some(polled->Trailers_0)
                &&& !(polled is Trailers) ==> final(send).trailers == send.trailers
                &&& polled is Failed ==> final(send).failed == Some(Reason(2))
                &&& !(polled is Failed) ==> final(send).failed == send.failed
                &&& polled is Failed || polled is End ==> final(send).done && final(send).body
                    is None
                &&& !(polled is Failed || polled is End) ==> final(send).done == send.done
                    && final(send).body == send.body
                &&& final(send).deferred == send.deferred
            },
{
    assert forall|send: &mut SendBody<B>, r: (bool, bool)| #[trigger]
        call_ensures(SendBody::<B>::pump, (send, polled), r) implies {
        let given = match polled {
            BodyPoll::Data(data) => chunk_bytes(data),
            _ => Seq::empty(),
        };
        joined(final(send).chunks@) == joined(send.chunks@) + given
    } by {
        if !(polled is Data) {
            assert(joined(send.chunks@) + Seq::<u8>::empty() =~= joined(send.chunks@));
        }
    }
}

/// A stream that was told to wait is resumed once there is data or the end, and
/// then waits no more; no other stream is resumed.
pub proof fn a_waiting_stream_is_resumed<B>()
    ensures
        forall|send: &mut SendBody<B>, r: bool| #[trigger]
            call_ensures(SendBody::<B>::resume, (send,), r) ==> {
                &&& r <==> send.deferred && (send.chunks@.len() > 0 || send.done)
                &&& r ==> !final(send).deferred
                &&& !r ==> final(send).deferred == send.deferred
                &&& final(send).chunks == send.chunks && final(send).done == send.done
                &&& final(send).trailers == send.trailers && final(send).failed == send.failed
            },
{
}

/// The session reads what is queued, in order and as much as it asks for; it is
/// told to wait where nothing is queued and more may come, and reads the end
/// where nothing will. A body that failed is reset instead, whatever is queued.
pub proof fn a_read_gives_what_is_queued<B>(length: usize)
    ensures
        forall|send: &mut SendBody<B>, r: SendRead| #[trigger]
            call_ensures(SendBody::<B>::read, (send, length), r) ==> {
                let queued = joined(send.chunks@);
                let n = if length < queued.len() {
                    length as int
                } else {
                    queued.len() as int
                };
                &&& send.failed is Some ==> r is Reset && joined(final(send).chunks@) == queued
                &&& send.failed is Some && ((send.failed->0).0 == 7 || (send.failed->0).0 == 8
                    || (send.failed->0).0 == 11) ==> r == SendRead::Reset((send.failed->0).0)
                &&& send.failed is Some && (send.failed->0).0 != 7 && (send.failed->0).0 != 8
                    && (send.failed->0).0 != 11 ==> r == SendRead::Reset(2)
                &&& send.failed is None && n > 0 ==> (r matches SendRead::Data(data) && data@
                    == queued.take(n) && joined(final(send).chunks@) == queued.skip(n))
                &&& send.failed is None && n == 0 && !send.done ==> r is Deferred && final(
                    send).deferred && joined(final(send).chunks@) == queued
                &&& send.failed is None && n == 0 && send.done ==> r is End && final(send).trailers
                    is None && joined(final(send).chunks@) == queued
                &&& send.failed is None && n == 0 && send.done && send.trailers is None ==> r
                    == SendRead::End(None)
                &&& r is Data || r is Deferred || r is Reset ==> final(send).trailers
                    == send.trailers
                &&& final(send).done == send.done
            },
{
    assert forall|send: &mut SendBody<B>, r: SendRead| #[trigger]
        call_ensures(SendBody::<B>::read, (send, length), r) && send.failed is None implies {
        let queued = joined(send.chunks@);
        let n = if length < queued.len() {
            length as int
        } else {
            queued.len() as int
        };
        n > 0 ==> (r matches SendRead::Data(data) && data@ == queued.take(n) && joined(
            final(send).chunks@,
        ) == queued.skip(n))
    } by {
        let queued = joined(send.chunks@);
        if let SendRead::Data(data) = r {
            if length > 0 && queued.len() > 0 {
                let rest = joined(final(send).chunks@);
                assert(queued == data@ + rest);
                assert(data@ =~= queued.take(data@.len() as int));
                assert(rest =~= queued.skip(data@.len() as int));
            }
        }
    }
}

/// Trailers that are read at the end of a body are its headers whose names are
/// none of the five that belong to one connection, each with its value, in the
/// map's order; where there is none such, the body ends without trailers. `at`
/// says which header of the map each one of the block is.
pub proof fn trailers_end_a_body<B>(length: usize, trailers: HeaderMap) -> (at: Seq<int>)
    ensures
        forall|i: int, j: int| 0 <= i < j < at.len() ==> at[i] < at[j],
        forall|k: int|
            #![trigger at[k]]
            0 <= k < at.len() ==> {
                let name = header_order(trailers)[at[k]].0;
                &&& 0 <= at[k] < header_order(trailers).len()
                &&& name != "connection"@ && name != "keep-alive"@ && name != "proxy-connection"@
                &&& name != "transfer-encoding"@ && name != "upgrade"@
            },
        forall|i: int|
            #![trigger header_order(trailers)[i]]
            0 <= i < header_order(trailers).len() ==> {
                let name = header_order(trailers)[i].0;
                name != "connection"@ && name != "keep-alive"@ && name != "proxy-connection"@
                    && name != "transfer-encoding"@ && name != "upgrade"@ ==> at.contains(i)
            },
        forall|send: &mut SendBody<B>, r: SendRead| #[trigger]
            call_ensures(SendBody::<B>::read, (send, length), r) && send.failed is None && (length
                == 0 || joined(send.chunks@).len() == 0) && send.done && send.trailers == Some(
                trailers,
            ) ==> {
                &&& at.len() == 0 ==> r == SendRead::End(None)
                &&& at.len() > 0 ==> (r matches SendRead::End(Some(nv)) && nv@.len() == at.len()
                    && forall|k: int|
                    #![trigger at[k]]
                    0 <= k < at.len() ==> nv@[k].name@ == utf8(header_order(trailers)[at[k]].0)
                        && nv@[k].value@ == header_order(trailers)[at[k]].1)
            },
{
    let at = crate::h2::fields::sent_places(header_order(trailers));
    assert forall|send: &mut SendBody<B>, r: SendRead| #[trigger]
        call_ensures(SendBody::<B>::read, (send, length), r) && send.failed is None && (length == 0
            || joined(send.chunks@).len() == 0) && send.done && send.trailers == Some(
            trailers,
        ) implies {
        &&& at.len() == 0 ==> r == SendRead::End(None)
        &&& at.len() > 0 ==> (r matches SendRead::End(Some(nv)) && nv@.len() == at.len() && forall|
            k: int,
        |
            #![trigger at[k]]
            0 <= k < at.len() ==> nv@[k].name@ == utf8(header_order(trailers)[at[k]].0)
                && nv@[k].value@ == header_order(trailers)[at[k]].1)
    } by {
        if let SendRead::End(Some(nv)) = r {
            let pairs = nv_pairs(nv@);
            assert(pairs.len() == nv@.len());
            assert forall|k: int| 0 <= k < nv@.len() implies pairs[k] == (
                (#[trigger] nv@[k]).name@,
                nv@[k].value@,
            ) by {}
        }
    }
    at
}

/// A new send state and one that is reused are the same to a stream: nothing is
/// queued, and nothing has ended, failed or waited.
pub proof fn a_reused_state_is_as_new<B>(body: B)
    ensures
        forall|r: SendBody<B>| #[trigger] call_ensures(SendBody::<B>::new, (body,), r) ==> {
            &&& r.body == Some(body) && r.chunks@.len() == 0 && r.buffered == 0
            &&& r.trailers is None && r.failed is None && !r.done && !r.deferred
        },
        forall|r: &mut SendBody<B>| #[trigger]
            call_ensures(SendBody::<B>::reset, (r, body), ()) ==> {
                &&& final(r).body == Some(body) && final(r).chunks@.len() == 0
                &&& final(r).buffered == 0 && final(r).trailers is None
                &&& final(r).failed is None && !final(r).done && !final(r).deferred
            },
        forall|pool: &mut SendBodyPool<B>, r: SendBody<B>| #[trigger]
            call_ensures(SendBodyPool::<B>::take, (pool, body), r) ==> {
                &&& r.body == Some(body) && r.chunks@.len() == 0 && r.buffered == 0
                &&& r.trailers is None && r.failed is None && !r.done && !r.deferred
                &&& pool.free@.len() > 0 ==> final(pool).free@ == pool.free@.drop_last()
                &&& pool.free@.len() == 0 ==> final(pool).free@ == pool.free@
            },
{
}

/// Up to 64 send states are kept for reuse, each without the body, the chunks
/// and the trailers of its stream.
pub proof fn a_pool_keeps_so_many<B>(send: SendBody<B>)
    ensures
        forall|pool: &mut SendBodyPool<B>| #[trigger]
            call_ensures(SendBodyPool::<B>::put, (pool, send), ()) ==> {
                let n = pool.free@.len();
                &&& n < 64 ==> {
                    &&& final(pool).free@.len() == n + 1
                    &&& final(pool).free@.take(n as int) == pool.free@
                    &&& final(pool).free@[n as int].body is None
                    &&& final(pool).free@[n as int].trailers is None
                    &&& final(pool).free@[n as int].chunks@.len() == 0
                }
                &&& n >= 64 ==> final(pool).free@ == pool.free@
            },
{
}

/// A stream that is marked is taken in its turn, and taken once.
pub proof fn marks_are_taken_once(sid: i32)
    ensures
        forall|recv: &mut ConnRecv| #[trigger]
            call_ensures(ConnRecv::mark, (recv, sid), ()) ==> final(recv).dirty@
                == recv.dirty@.push(sid),
        forall|recv: &mut ConnRecv, r: Vec<i32>| #[trigger]
            call_ensures(ConnRecv::take_dirty, (recv,), r) ==> r@ == recv.dirty@ && final(
                recv).dirty@.len() == 0,
{
}

/// What comes is queued at the end, and read bytes are reported in full, once.
pub proof fn chunks_and_credits_add_up(data: Bytes)
    ensures
        forall|body: &mut RecvShared| #[trigger]
            call_ensures(RecvShared::push_chunk, (body, data), ()) ==> final(body).chunks@
                == body.chunks@.push(data) && final(body).eof == body.eof && final(body).error
                == body.error && final(body).consumed_unreported == body.consumed_unreported,
        forall|body: &mut RecvShared, r: usize| #[trigger]
            call_ensures(RecvShared::take_consumed, (body,), r) ==> r == body.consumed_unreported
                && final(body).consumed_unreported == 0 && final(body).chunks == body.chunks,
        forall|body: RecvShared, r: usize| #[trigger]
            call_ensures(RecvShared::unread, (&body,), r) ==> r == joined(body.chunks@).len(),
{
}

/// What a body begins with, and what each change makes of it: trailers, the end
/// and an error are set on it, and nothing else is.
pub proof fn a_body_changes_in_one_place(trailers: HeaderMap, error: Error)
    ensures
        forall|r: RecvShared| #[trigger]
            call_ensures(RecvShared::new, (), r) ==> {
                &&& r.chunks@.len() == 0 && r.buffered == 0 && r.consumed_unreported == 0
                &&& r.trailers is None && r.error is None && !r.eof && !r.dropped
            },
        forall|body: &mut RecvShared| #[trigger]
            call_ensures(RecvShared::set_trailers, (body, trailers), ()) ==> final(body).trailers
                == Some(trailers) && final(body).chunks == body.chunks && final(body).eof == body.eof
                && final(body).error == body.error && final(body).dropped == body.dropped
                && final(body).consumed_unreported == body.consumed_unreported,
        forall|body: &mut RecvShared| #[trigger]
            call_ensures(RecvShared::set_eof, (body,), ()) ==> final(body).eof && final(body).chunks
                == body.chunks && final(body).trailers == body.trailers && final(body).error
                == body.error && final(body).dropped == body.dropped
                && final(body).consumed_unreported == body.consumed_unreported,
        forall|body: &mut RecvShared| #[trigger]
            call_ensures(RecvShared::set_error, (body, error), ()) ==> final(body).error == Some(
                error,
            ) && final(body).chunks == body.chunks && final(body).trailers == body.trailers
                && final(body).eof == body.eof && final(body).dropped == body.dropped
                && final(body).consumed_unreported == body.consumed_unreported,
        forall|r: ConnRecv| #[trigger] call_ensures(ConnRecv::new, (), r) ==> r.dirty@.len() == 0,
{
}

/// A read leaves alone what it does not give: the stack's body, the reason of a
/// failure, and, where it gives data, that the stream waits.
pub proof fn a_read_leaves_the_rest<B>(length: usize)
    ensures
        forall|send: &mut SendBody<B>, r: SendRead| #[trigger]
            call_ensures(SendBody::<B>::read, (send, length), r) ==> {
                &&& final(send).body == send.body && final(send).failed == send.failed
                &&& !(r is Deferred) ==> final(send).deferred == send.deferred
            },
        forall|r: SendBodyPool<B>| #[trigger]
            call_ensures(SendBodyPool::<B>::new, (), r) ==> r.free@.len() == 0,
{
}

/// A consumer that goes leaves everything else of the body, and a stream that
/// is resumed everything else of its send state, as it is.
pub proof fn a_state_keeps_the_rest<B>()
    ensures
        forall|body: &mut RecvShared| #[trigger]
            call_ensures(RecvShared::release, (body,), ()) ==> *final(body) == (RecvShared {
                dropped: final(body).dropped,
                ..*body
            }),
        forall|send: &mut SendBody<B>, r: bool| #[trigger]
            call_ensures(SendBody::<B>::resume, (send,), r) ==> *final(send) == (SendBody {
                deferred: final(send).deferred,
                ..*send
            }),
        forall|body: &mut RecvShared, r: usize| #[trigger]
            call_ensures(RecvShared::take_consumed, (body,), r) ==> *final(body) == (RecvShared {
                consumed_unreported: 0,
                ..*body
            }),
{
}

} // verus!
