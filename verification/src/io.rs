//! The endpoint through which the proxy's stack and the DMA datapath exchange
//! a connection's bytes.
//!
//! Received bytes stay in the connection's DMA staging buffer: the driver
//! delivers `(pos, len)` segments of it, and a read copies straight from the
//! staging region into the caller's buffer. Writes copy into the endpoint's
//! arena batch through the bound writer; a write that is not accepted retains
//! none of the caller's bytes.
//!
//! Every endpoint belongs to one worker thread. The stack marks the endpoint
//! dirty and raises the worker's signal when the driver has something to
//! publish; the driver pumps only dirty endpoints.
use vstd::prelude::*;

use std::collections::VecDeque;

use crate::fifo::{moves, Moved};
use crate::net::SocketAddr;
use crate::session::SessionToken;

verus! {

/// Exact destination selected by discovery for backend output.
#[derive(Debug, PartialEq, Eq)]
pub enum BackendRoute {
    Any,
    Origin,
    Local(i32),
    Remote(String),
}

impl Clone for BackendRoute {
    fn clone(&self) -> (r: Self)
        ensures
            r == *self,
    {
        match self {
            BackendRoute::Any => BackendRoute::Any,
            BackendRoute::Origin => BackendRoute::Origin,
            BackendRoute::Local(id) => BackendRoute::Local(*id),
            BackendRoute::Remote(name) => BackendRoute::Remote(name.clone()),
        }
    }
}

impl Default for BackendRoute {
    fn default() -> (r: Self)
        ensures
            r == BackendRoute::Any,
    {
        BackendRoute::Any
    }
}

/// What kind of transport failure an error is.
#[derive(Clone, Copy, Debug, PartialEq, Eq, Structural)]
pub enum ErrorKind {
    BrokenPipe,
    ConnectionRefused,
    ConnectionReset,
    InvalidData,
    InvalidInput,
    NotConnected,
    TimedOut,
    UnexpectedEof,
    WouldBlock,
    WriteZero,
    Other,
    /// A kind without a name here, by the transport's own number.
    Transport(i32),
}

/// A transport failure.
#[derive(Debug)]
pub struct IoError {
    pub kind: ErrorKind,
    pub message: String,
}

impl IoError {
    pub open spec fn says(self, kind: ErrorKind, message: Seq<char>) -> bool {
        self.kind == kind && self.message@ == message
    }

    pub fn new(kind: ErrorKind, message: &str) -> (r: Self)
        ensures
            r.says(kind, message@),
    {
        IoError { kind, message: message.to_owned() }
    }
}

/// Whether an operation finished or has to be polled again.
#[derive(Debug)]
pub enum Poll<T> {
    Ready(T),
    Pending,
}

/// Write result. Retry accepts no caller bytes; an earlier batch may remain owned.
#[derive(Debug)]
pub enum TxAttempt {
    /// Copied once into the endpoint's unpublished arena batch.
    Buffered(usize),
    Retry,
    Failed(IoError),
}

/// What a writer has made of the bytes that it accepted. A writer keeps them in
/// order: a write appends the prefix that it accepted to the batch, and a flush
/// publishes the batch or leaves it as it is.
pub struct Output {
    /// The bytes that it has published, in order.
    pub published: Seq<u8>,
    /// The bytes behind those that it owns and has not published.
    pub batch: Seq<u8>,
}

impl Output {
    /// Everything that was accepted, in order.
    pub open spec fn accepted(self) -> Seq<u8> {
        self.published + self.batch
    }

    /// A write of `offered` was answered so.
    pub open spec fn after_write(self, after: Output, offered: Seq<u8>, attempt: TxAttempt) -> bool {
        match attempt {
            TxAttempt::Buffered(n) => 0 < n <= offered.len() ==> after == (Output {
                batch: self.batch + offered.take(n as int),
                ..self
            }),
            TxAttempt::Retry => after == self,
            TxAttempt::Failed(_) => true,
        }
    }

    /// A flush was answered so.
    pub open spec fn after_flush(
        self,
        after: Output,
        flushed: Result<Option<usize>, IoError>,
    ) -> bool {
        match flushed {
            Ok(Some(n)) => {
                &&& n == self.batch.len()
                &&& after == (Output {
                    published: self.published + self.batch,
                    batch: Seq::empty(),
                })
            },
            Ok(None) => after == self,
            Err(_) => true,
        }
    }
}

/// A write that accepts a prefix appends it, and one that is refused nothing.
proof fn appends(offered: Seq<u8>, attempt: TxAttempt)
    ensures
        forall|before: Output, after: Output| #[trigger]
            before.after_write(after, offered, attempt) ==> match attempt {
                TxAttempt::Buffered(n) => 0 < n <= offered.len() ==> after.accepted()
                    == before.accepted() + offered.take(n as int),
                TxAttempt::Retry => after.accepted() == before.accepted() + Seq::<u8>::empty(),
                TxAttempt::Failed(_) => true,
            },
{
    assert forall|before: Output, after: Output| #[trigger]
        before.after_write(after, offered, attempt) implies match attempt {
        TxAttempt::Buffered(n) => 0 < n <= offered.len() ==> after.accepted() == before.accepted()
            + offered.take(n as int),
        TxAttempt::Retry => after.accepted() == before.accepted() + Seq::<u8>::empty(),
        TxAttempt::Failed(_) => true,
    } by {
        if let TxAttempt::Buffered(n) = attempt {
            if 0 < n <= offered.len() {
                assert(after.accepted() =~= before.accepted() + offered.take(n as int));
            }
        }
        assert(before.accepted() =~= before.accepted() + Seq::<u8>::empty());
    }
}

/// A flush that does not fail neither loses nor adds a byte.
proof fn loses_nothing(flushed: Result<Option<usize>, IoError>)
    ensures
        forall|before: Output, after: Output| #[trigger]
            before.after_flush(after, flushed) && flushed is Ok ==> after.accepted()
                == before.accepted() + Seq::<u8>::empty(),
{
    assert forall|before: Output, after: Output| #[trigger]
        before.after_flush(after, flushed) && flushed is Ok implies after.accepted()
        == before.accepted() + Seq::<u8>::empty() by {
        assert(after.accepted() =~= before.accepted());
        assert(before.accepted() =~= before.accepted() + Seq::<u8>::empty());
    }
}

/// The bytes of `bufs`, one behind the other.
pub open spec fn gathered(bufs: Seq<&[u8]>) -> Seq<u8>
    decreases bufs.len(),
{
    if bufs.len() == 0 {
        Seq::empty()
    } else {
        gathered(bufs.drop_last()) + bufs.last()@
    }
}

proof fn gathered_len(bufs: Seq<&[u8]>)
    ensures
        gathered(bufs).len() == total_len(bufs),
    decreases bufs.len(),
{
    if bufs.len() > 0 {
        gathered_len(bufs.drop_last());
    }
}

/// Publishes one endpoint's output. Every method runs on the owning worker
/// thread with the endpoint lock held, so an implementation must not touch
/// the endpoint it serves.
pub trait TxWriter: Sized {
    /// Copy an ordered prefix of `bufs`.
    fn write(&mut self, route: &BackendRoute, bufs: &[&[u8]]) -> TxAttempt;

    /// Some(n): published bytes, None: retry later with ownership intact.
    /// By default nothing is there to publish.
    fn flush(&mut self) -> (r: Result<Option<usize>, IoError>)
        default_ensures
            r == Ok::<Option<usize>, IoError>(Some(0)),
            *final(self) == *old(self),
    {
        Ok(Some(0))
    }

    /// Drop the unpublished batch.
    fn cancel(&mut self) {
    }
}

/// Register `waker` in `slot`, in place of one that is already there.
pub fn park<K>(slot: &mut Option<K>, waker: K)
    ensures
        *final(slot) == Some(waker),
{
    *slot = Some(waker);
}

/// One per worker: endpoints raise it, the driver parks on it.
#[derive(Debug)]
pub struct DriverSignal<K> {
    pub raised: bool,
    pub waker: Option<K>,
}

impl<K> DriverSignal<K> {
    pub fn new() -> (r: Self)
        ensures
            r == (DriverSignal::<K> { raised: false, waker: None }),
    {
        DriverSignal { raised: false, waker: None }
    }

    /// Raise the signal. The returned waker, if any, is to be woken: a signal
    /// that is up already wakes nobody.
    pub fn raise(&mut self) -> (wake: Option<K>)
        ensures
            final(self).raised,
            old(self).raised ==> wake is None && *final(self) == *old(self),
            !old(self).raised ==> wake == old(self).waker && final(self).waker is None,
    {
        if self.raised {
            return None;
        }
        self.raised = true;
        self.waker.take()
    }

    /// Ready once per raise; otherwise `waker` is registered.
    pub fn poll(&mut self, waker: K) -> (r: Poll<()>)
        ensures
            !final(self).raised,
            r is Ready <==> old(self).raised,
            r is Ready ==> final(self).waker == old(self).waker,
            r is Pending ==> final(self).waker == Some(waker),
    {
        if self.raised {
            self.raised = false;
            return Poll::Ready(());
        }
        park(&mut self.waker, waker);
        Poll::Pending
    }
}

/// Output counters of one endpoint since they were last taken.
#[derive(Clone, Copy, Debug, PartialEq, Eq, Structural)]
pub struct TxStats {
    /// Bytes the transport took custody of.
    pub accepted: u64,
    pub publications: u64,
    /// Bytes copied into the arena, whether or not published yet.
    pub copied: u64,
    pub retries: u64,
    pub errors: u64,
}

impl TxStats {
    pub open spec fn zero() -> TxStats {
        TxStats { accepted: 0, publications: 0, copied: 0, retries: 0, errors: 0 }
    }

    /// One more retry or error, or `n` more copied bytes, can be counted.
    pub open spec fn has_room(self, n: nat) -> bool {
        &&& self.copied + n <= u64::MAX
        &&& self.retries < u64::MAX
        &&& self.errors < u64::MAX
    }
}

impl Default for TxStats {
    fn default() -> (r: Self)
        ensures
            r == TxStats::zero(),
    {
        TxStats { accepted: 0, publications: 0, copied: 0, retries: 0, errors: 0 }
    }
}

/// What one drain pass observes about an endpoint after publishing.
#[derive(Clone, Copy, Debug, Eq, PartialEq, Structural)]
pub struct DrainState {
    /// The reader still holds undelivered or undrained input.
    pub has_rx: bool,
    /// The stack shut its write half and every queued byte has been published.
    pub tx_finished: bool,
    /// The endpoint disappeared without publishing an orderly output FIN.
    pub tx_aborted: bool,
}

/// What one driver pump observed and did.
#[derive(Debug)]
pub struct Pumped {
    pub stats: TxStats,
    pub state: DrainState,
    /// The transport refused the batch; pump again on a later pass.
    pub blocked: bool,
}

/// Stack-facing identity of an endpoint (what a socket would report).
#[derive(Clone, Copy, Debug)]
pub struct DmeshIo {
    /// The flow's source address.
    pub peer: SocketAddr,
    /// The session this endpoint belongs to, carried so the outbound connector
    /// can resolve the session's backend channel from the connection itself.
    pub session: Option<SessionToken>,
}

/// The state that the stack and the driver share for one connection.
///
/// `W` publishes output, `K` wakes a parked task and `S` is the worker's
/// signal.
#[derive(Debug)]
pub struct DmeshIoHandle<W, K, S> {
    pub backend_route: BackendRoute,
    /// Owned received bytes, read before any segment.
    pub rx: Vec<u8>,
    /// Address and length of the mapped staging region.
    pub staging_base: usize,
    pub staging_len: usize,
    /// Completed `(pos, len)` segments of the staging region, oldest first.
    pub segs: VecDeque<(u32, u32)>,
    /// How much of the oldest segment has been read.
    pub seg_read_off: usize,
    /// Peer half closed: reads drain what is there, then return EOF.
    pub rx_closed: bool,
    pub rx_waker: Option<K>,
    pub writer: Option<W>,
    /// The thread that bound the writer.
    pub owner: Option<u64>,
    pub signal: Option<S>,
    pub tx_error: Option<ErrorKind>,
    pub tx_buffered: bool,
    pub tx_stats: TxStats,
    /// Local half shut down: further writes fail.
    pub tx_closed: bool,
    /// The stack dropped the endpoint without an orderly shutdown.
    pub tx_aborted: bool,
    pub tx_waker: Option<K>,
    /// The driver should pump this endpoint on its next pass.
    pub dirty: bool,
    /// A terminal transport error is latched.
    pub failed: bool,
}

/// The bytes of `segs`, oldest first, as they stand in `staging`.
pub open spec fn segment_bytes(staging: Seq<u8>, segs: Seq<(u32, u32)>) -> Seq<u8>
    decreases segs.len(),
{
    if segs.len() == 0 {
        Seq::empty()
    } else {
        staging.subrange(segs[0].0 as int, segs[0].0 + segs[0].1) + segment_bytes(
            staging,
            segs.drop_first(),
        )
    }
}

/// The bytes that a write offers, as far as a length can say it.
pub open spec fn total_len(bufs: Seq<&[u8]>) -> nat
    decreases bufs.len(),
{
    if bufs.len() == 0 {
        0
    } else {
        total_len(bufs.drop_last()) + bufs.last()@.len()
    }
}

pub open spec fn saturated(n: nat) -> nat {
    if n <= usize::MAX {
        n
    } else {
        usize::MAX as nat
    }
}

impl<W, K, S> DmeshIoHandle<W, K, S> {
    /// What holds of every endpoint between operations.
    pub open spec fn wf(self) -> bool {
        &&& self.writer is Some <==> self.owner is Some
        &&& self.writer is Some <==> self.signal is Some
        &&& self.tx_buffered ==> self.writer is Some
        &&& self.failed <==> self.tx_error is Some
        &&& self.tx_stats.accepted == 0
        &&& self.tx_stats.publications == 0
        &&& self.segs@.len() == 0 ==> self.seg_read_off == 0
        &&& self.segs@.len() > 0 ==> self.seg_read_off < self.segs@[0].1
        // A segment that is queued lies in the staging region and is not empty.
        &&& forall|i: int|
            0 <= i < self.segs@.len() ==> 0 < (#[trigger] self.segs@[i]).1 && self.segs@[i].0
                + self.segs@[i].1 <= self.staging_len
    }

    /// The input that has been delivered and not read yet.
    pub open spec fn input(self, staging: Seq<u8>) -> Seq<u8> {
        self.rx@ + segment_bytes(staging, self.segs@).skip(self.seg_read_off as int)
    }

    pub open spec fn spec_has_rx(self) -> bool {
        self.rx@.len() > 0 || self.segs@.len() > 0
    }

    /// The reader has data exactly where a byte was delivered and not read.
    proof fn input_is_unread(self, staging: Seq<u8>)
        requires
            self.wf(),
            staging.len() == self.staging_len,
        ensures
            self.input(staging).len() > 0 <==> self.spec_has_rx(),
    {
        segments_long_enough(staging, self.segs@);
    }

    pub open spec fn spec_tx_finished(self) -> bool {
        self.tx_closed && !self.tx_buffered
    }

    pub open spec fn spec_drain_state(self) -> DrainState {
        DrainState {
            has_rx: self.spec_has_rx(),
            tx_finished: self.spec_tx_finished(),
            tx_aborted: self.tx_aborted || self.tx_error is Some,
        }
    }

    /// The endpoint with a terminal error of `kind` latched.
    pub open spec fn after_failure(self, kind: ErrorKind) -> Self {
        DmeshIoHandle {
            tx_error: Some(kind),
            tx_stats: TxStats { errors: (self.tx_stats.errors + 1) as u64, ..self.tx_stats },
            failed: true,
            ..self
        }
    }

    /// The endpoint once its writer answered a write of `offered` bytes.
    pub open spec fn after_attempt(self, attempt: TxAttempt, offered: nat, waker: K) -> Self {
        let next = match attempt {
            TxAttempt::Buffered(got) => if 0 < got <= offered {
                DmeshIoHandle {
                    tx_stats: TxStats {
                        copied: (self.tx_stats.copied + got) as u64,
                        ..self.tx_stats
                    },
                    tx_buffered: true,
                    ..self
                }
            } else {
                self.after_failure(ErrorKind::Other)
            },
            TxAttempt::Retry => DmeshIoHandle {
                tx_stats: TxStats { retries: (self.tx_stats.retries + 1) as u64, ..self.tx_stats },
                tx_waker: Some(waker),
                ..self
            },
            TxAttempt::Failed(error) => self.after_failure(error.kind),
        };
        DmeshIoHandle { dirty: true, ..next }
    }

    /// The endpoint once its writer answered a flush.
    pub open spec fn after_flush(self, flushed: Result<Option<usize>, IoError>) -> Self {
        match flushed {
            Ok(Some(n)) => DmeshIoHandle {
                tx_stats: TxStats {
                    accepted: n as u64,
                    publications: if n > 0 {
                        1
                    } else {
                        0
                    },
                    ..self.tx_stats
                },
                tx_buffered: false,
                ..self
            },
            Ok(None) => DmeshIoHandle {
                tx_stats: TxStats { retries: (self.tx_stats.retries + 1) as u64, ..self.tx_stats },
                ..self
            },
            Err(error) => self.after_failure(error.kind),
        }
    }

    /// A pump publishes the owned batch.
    pub open spec fn flushes(self) -> bool {
        self.tx_buffered && self.tx_error is None && !self.tx_aborted
    }

    /// The waker that a pump wakes: a writer parked on a full batch or a dry
    /// arena may try again once nothing is buffered, and learns of an error.
    pub open spec fn pump_wakes(self) -> Option<K> {
        if !self.tx_buffered || self.tx_error is Some {
            self.tx_waker
        } else {
            None
        }
    }

    /// What a pump leaves of an endpoint it has published from.
    pub open spec fn after_pump(self) -> Self {
        DmeshIoHandle {
            tx_waker: if !self.tx_buffered || self.tx_error is Some {
                None
            } else {
                self.tx_waker
            },
            tx_stats: TxStats::zero(),
            ..self
        }
    }
}

/// What a write returns for the writer's answer.
pub open spec fn attempt_outcome(
    attempt: TxAttempt,
    offered: nat,
    result: Poll<Result<usize, IoError>>,
    raise: bool,
) -> bool {
    match attempt {
        TxAttempt::Buffered(got) => if 0 < got <= offered {
            result == Poll::<Result<usize, IoError>>::Ready(Ok(got)) && raise
        } else {
            &&& result matches Poll::Ready(Err(e)) && e.says(
                ErrorKind::Other,
                "invalid arena batch length"@,
            )
            &&& raise
        },
        TxAttempt::Retry => result is Pending && !raise,
        TxAttempt::Failed(error) => {
            &&& result == Poll::<Result<usize, IoError>>::Ready(Err(error))
            &&& raise
        },
    }
}

/// Create a connected pair. The driver keeps the handle, the stack gets the IO.
/// `peer` is the flow's source address; `session` names the session the flow
/// belongs to.
pub fn dmesh_io_pair<W, K, S>(peer: SocketAddr, session: Option<SessionToken>) -> (r: (
    DmeshIo,
    DmeshIoHandle<W, K, S>,
))
    ensures
        r.0 == (DmeshIo { peer, session }),
        r.1.wf(),
        r.1.backend_route == BackendRoute::Any,
        r.1.rx@.len() == 0,
        r.1.segs@.len() == 0,
        r.1.staging_base == 0,
        r.1.staging_len == 0,
        r.1.seg_read_off == 0,
        r.1.writer is None,
        r.1.owner is None,
        r.1.signal is None,
        !r.1.failed,
        r.1.rx_waker is None,
        r.1.tx_waker is None,
        r.1.tx_error is None,
        !r.1.rx_closed && !r.1.tx_closed && !r.1.tx_aborted && !r.1.tx_buffered && !r.1.dirty,
        r.1.tx_stats == TxStats::zero(),
{
    (
        DmeshIo { peer, session },
        DmeshIoHandle {
            backend_route: BackendRoute::Any,
            rx: Vec::new(),
            staging_base: 0,
            staging_len: 0,
            segs: VecDeque::new(),
            seg_read_off: 0,
            rx_closed: false,
            rx_waker: None,
            writer: None,
            owner: None,
            signal: None,
            tx_error: None,
            tx_buffered: false,
            tx_stats: TxStats::default(),
            tx_closed: false,
            tx_aborted: false,
            tx_waker: None,
            dirty: false,
            failed: false,
        },
    )
}

/// The number of bytes in `bufs`, saturating.
pub fn offered_len(bufs: &[&[u8]]) -> (r: usize)
    ensures
        r == saturated(total_len(bufs@)),
{
    let mut n: usize = 0;
    let mut i: usize = 0;
    while i < bufs.len()
        invariant
            i <= bufs.len(),
            n == saturated(total_len(bufs@.take(i as int))),
        decreases bufs.len() - i,
    {
        assert(bufs@.take(i as int + 1).drop_last() =~= bufs@.take(i as int));
        n = n.saturating_add(bufs[i].len());
        i = i + 1;
    }
    assert(bufs@.take(i as int) =~= bufs@);
    n
}

impl DmeshIo {
    /// Read what has been delivered into `buf`, at most `room` bytes of it.
    ///
    /// Owned bytes come before segments, and one call reads from one source
    /// only. Where there is room, Ready without a byte is the end of the input:
    /// the peer has closed its half and everything it sent has been read.
    /// `staging` is the mapped staging region.
    pub fn poll_read<W, K, S>(
        &self,
        shared: &mut DmeshIoHandle<W, K, S>,
        staging: &[u8],
        buf: &mut Vec<u8>,
        room: usize,
        waker: K,
    ) -> (r: Poll<()>)
        requires
            old(shared).wf(),
            staging@.len() == old(shared).staging_len,
        ensures
            final(shared).wf(),
            // Nothing is lost, repeated or reordered.
            old(buf)@ + old(shared).input(staging@) == final(buf)@ + final(shared).input(staging@),
            old(buf)@.is_prefix_of(final(buf)@),
            moves(
                old(shared).input(staging@),
                final(shared).input(staging@),
                Moved::Out(final(buf)@.skip(old(buf)@.len() as int)),
            ),
            room > 0 ==> (r is Ready && final(buf)@ == old(buf)@ <==> old(shared).rx_closed && old(
                shared,
            ).input(staging@).len() == 0),
            room > 0 ==> (r is Pending <==> !old(shared).rx_closed && old(shared).input(
                staging@,
            ).len() == 0),
            if room == 0 {
                r is Ready && final(buf)@ == old(buf)@ && *final(shared) == *old(shared)
            } else if old(shared).rx@.len() > 0 {
                r is Ready && owned_read(
                    *old(shared),
                    *final(shared),
                    old(buf)@,
                    final(buf)@,
                    room as nat,
                )
            } else if old(shared).segs@.len() > 0 {
                r is Ready && segment_read(
                    *old(shared),
                    *final(shared),
                    staging@,
                    old(buf)@,
                    final(buf)@,
                    room as nat,
                )
            } else {
                &&& final(buf)@ == old(buf)@
                &&& r is Ready <==> old(shared).rx_closed
                &&& r is Ready ==> *final(shared) == *old(shared)
                &&& r is Pending ==> *final(shared) == (DmeshIoHandle {
                    rx_waker: Some(waker),
                    ..*old(shared)
                })
            },
    {
        proof {
            shared.input_is_unread(staging@);
        }
        if room == 0 {
            proof {
                reads_in_order(buf@, buf@, shared.input(staging@), shared.input(staging@));
            }
            return Poll::Ready(());
        }
        if shared.rx.len() > 0 {
            read_owned(shared, Ghost(staging@), buf, room);
            proof {
                reads_in_order(
                    old(buf)@,
                    buf@,
                    old(shared).input(staging@),
                    shared.input(staging@),
                );
            }
            return Poll::Ready(());
        }
        if shared.segs.len() > 0 {
            read_segment(shared, staging, buf, room);
            proof {
                reads_in_order(
                    old(buf)@,
                    buf@,
                    old(shared).input(staging@),
                    shared.input(staging@),
                );
            }
            return Poll::Ready(());
        }
        proof {
            reads_in_order(buf@, buf@, shared.input(staging@), shared.input(staging@));
        }
        if shared.rx_closed {
            return Poll::Ready(());
        }
        park(&mut shared.rx_waker, waker);
        Poll::Pending
    }
}

/// What a read appends to `buf` it takes off the front of the input.
proof fn reads_in_order(buf: Seq<u8>, filled: Seq<u8>, before: Seq<u8>, after: Seq<u8>)
    requires
        buf.is_prefix_of(filled),
        buf + before == filled + after,
    ensures
        moves(before, after, Moved::Out(filled.skip(buf.len() as int))),
{
    let n = buf.len() as int;
    assert(before =~= (buf + before).skip(n));
    assert(filled.skip(n) + after =~= (filled + after).skip(n));
}

pub open spec fn smaller(a: int, b: int) -> int {
    if a < b {
        a
    } else {
        b
    }
}

/// A read of owned bytes: as many as there is room for, from the front. The
/// last byte of the whole input marks the endpoint dirty.
pub open spec fn owned_read<W, K, S>(
    before: DmeshIoHandle<W, K, S>,
    after: DmeshIoHandle<W, K, S>,
    buf: Seq<u8>,
    filled: Seq<u8>,
    room: nat,
) -> bool {
    let n = smaller(room as int, before.rx@.len() as int);
    &&& filled == buf + before.rx@.take(n)
    &&& after.rx@ == before.rx@.skip(n)
    &&& after == (DmeshIoHandle {
        rx: after.rx,
        dirty: before.dirty || !after.spec_has_rx(),
        ..before
    })
}

/// A read of the oldest segment: as many of its unread bytes as there is room
/// for. A segment read to its end is dropped, and the last one marks the
/// endpoint dirty.
pub open spec fn segment_read<W, K, S>(
    before: DmeshIoHandle<W, K, S>,
    after: DmeshIoHandle<W, K, S>,
    staging: Seq<u8>,
    buf: Seq<u8>,
    filled: Seq<u8>,
    room: nat,
) -> bool {
    let (pos, len) = before.segs@[0];
    let off = before.seg_read_off;
    let n = smaller(room as int, len - off);
    &&& filled == buf + staging.subrange(pos + off, pos + off + n)
    &&& if off + n < len {
        after == (DmeshIoHandle { seg_read_off: (off + n) as usize, ..before })
    } else {
        &&& after.segs@ == before.segs@.drop_first()
        &&& after == (DmeshIoHandle {
            segs: after.segs,
            seg_read_off: 0,
            dirty: before.dirty || after.segs@.len() == 0,
            ..before
        })
    }
}

fn read_owned<W, K, S>(
    shared: &mut DmeshIoHandle<W, K, S>,
    Ghost(staging): Ghost<Seq<u8>>,
    buf: &mut Vec<u8>,
    room: usize,
)
    requires
        old(shared).wf(),
    ensures
        final(shared).wf(),
        owned_read(*old(shared), *final(shared), old(buf)@, final(buf)@, room as nat),
        old(buf)@ + old(shared).input(staging) == final(buf)@ + final(shared).input(staging),
{
    let n: usize = if room < shared.rx.len() {
        room
    } else {
        shared.rx.len()
    };
    let rest = shared.rx.split_off(n);
    buf.append(&mut shared.rx);
    shared.rx = rest;
    if shared.rx.len() == 0 && shared.segs.len() == 0 {
        shared.dirty = true;
    }
    assert(old(shared).rx@.take(n as int) =~= old(shared).rx@.subrange(0, n as int));
    assert(shared.rx@ =~= old(shared).rx@.skip(n as int));
    assert(buf@ + shared.input(staging) =~= old(buf)@ + old(shared).input(staging));
}

fn read_segment<W, K, S>(
    shared: &mut DmeshIoHandle<W, K, S>,
    staging: &[u8],
    buf: &mut Vec<u8>,
    room: usize,
)
    requires
        old(shared).wf(),
        old(shared).segs@.len() > 0,
        old(shared).rx@.len() == 0,
        staging@.len() == old(shared).staging_len,
    ensures
        final(shared).wf(),
        segment_read(*old(shared), *final(shared), staging@, old(buf)@, final(buf)@, room as nat),
        old(buf)@ + old(shared).input(staging@) == final(buf)@ + final(shared).input(staging@),
{
    let (pos, len): (u32, u32) = shared.segs[0];
    let off: usize = shared.seg_read_off;
    let avail: usize = len as usize - off;
    let n: usize = if room < avail {
        room
    } else {
        avail
    };
    let at: usize = pos as usize + off;
    let chunk = vstd::slice::slice_subrange(staging, at, at + n);
    buf.extend_from_slice(chunk);
    assert(buf@ =~= old(buf)@ + staging@.subrange(pos + off, pos + off + n));
    shared.seg_read_off = off + n;
    if shared.seg_read_off >= len as usize {
        let _ = shared.segs.pop_front();
        shared.seg_read_off = 0;
        assert(shared.segs@ =~= old(shared).segs@.drop_first());
        // Fully consumed input is custody the driver can return.
        if shared.segs.len() == 0 {
            shared.dirty = true;
        }
    }
    proof {
        segments_read_in_order(
            staging@,
            old(shared).segs@,
            old(shared).staging_len as int,
            off as int,
            n as int,
        );
        assert(buf@ + shared.input(staging@) =~= old(buf)@ + old(shared).input(staging@));
    }
}

/// Reading `n` bytes at `off` of the oldest segment takes them from the front
/// of what the segments hold.
proof fn segments_read_in_order(
    staging: Seq<u8>,
    segs: Seq<(u32, u32)>,
    staging_len: int,
    off: int,
    n: int,
)
    requires
        segs.len() > 0,
        staging.len() == staging_len,
        forall|i: int| 0 <= i < segs.len() ==> (#[trigger] segs[i]).0 + segs[i].1 <= staging_len,
        0 <= off,
        0 <= n,
        off + n <= segs[0].1,
    ensures
        segment_bytes(staging, segs).skip(off) == staging.subrange(
            segs[0].0 + off,
            segs[0].0 + off + n,
        ) + segment_bytes(staging, segs).skip(off + n),
        off + n == segs[0].1 ==> segment_bytes(staging, segs).skip(off + n) == segment_bytes(
            staging,
            segs.drop_first(),
        ).skip(0),
{
    let first = staging.subrange(segs[0].0 as int, segs[0].0 + segs[0].1);
    let tail = segment_bytes(staging, segs.drop_first());
    assert(segment_bytes(staging, segs) == first + tail);
    assert((first + tail).skip(off) =~= staging.subrange(segs[0].0 + off, segs[0].0 + off + n) + (
    first + tail).skip(off + n));
    if off + n == segs[0].1 {
        assert((first + tail).skip(off + n) =~= tail.skip(0));
    }
}

impl<W, K, S> DmeshIoHandle<W, K, S> {
    /// Latch a terminal error.
    fn fail(&mut self, kind: ErrorKind)
        requires
            old(self).tx_stats.errors < u64::MAX,
        ensures
            *final(self) == old(self).after_failure(kind),
    {
        self.tx_error = Some(kind);
        self.tx_stats.errors = self.tx_stats.errors + 1;
        self.failed = true;
    }

    /// Take the writer's answer to a write of `offered` bytes. The boolean says
    /// whether the worker's signal is to be raised.
    ///
    /// A write that was refused summons nobody, so a dry arena cannot spin: the
    /// driver's next pass publishes, or wakes the writer.
    pub fn settle_write(&mut self, attempt: TxAttempt, offered: usize, waker: K) -> (r: (
        Poll<Result<usize, IoError>>,
        bool,
    ))
        requires
            old(self).wf(),
            old(self).writer is Some,
            old(self).tx_stats.has_room(offered as nat),
        ensures
            *final(self) == old(self).after_attempt(attempt, offered as nat, waker),
            attempt_outcome(attempt, offered as nat, r.0, r.1),
            final(self).wf(),
    {
        self.dirty = true;
        match attempt {
            TxAttempt::Buffered(got) => {
                if got > 0 && got <= offered {
                    self.tx_stats.copied = self.tx_stats.copied + got as u64;
                    self.tx_buffered = true;
                    (Poll::Ready(Ok(got)), true)
                } else {
                    self.fail(ErrorKind::Other);
                    (
                        Poll::Ready(
                            Err(IoError::new(ErrorKind::Other, "invalid arena batch length")),
                        ),
                        true,
                    )
                }
            },
            TxAttempt::Retry => {
                self.tx_stats.retries = self.tx_stats.retries + 1;
                park(&mut self.tx_waker, waker);
                (Poll::Pending, false)
            },
            TxAttempt::Failed(error) => {
                self.fail(error.kind);
                (Poll::Ready(Err(error)), true)
            },
        }
    }

    /// Take the writer's answer to a flush. Returns whether the transport
    /// refused the batch.
    pub fn settle_flush(&mut self, flushed: Result<Option<usize>, IoError>) -> (blocked: bool)
        requires
            old(self).wf(),
            old(self).tx_stats.has_room(0),
        ensures
            *final(self) == old(self).after_flush(flushed),
            blocked <==> flushed == Ok::<Option<usize>, IoError>(None),
    {
        match flushed {
            Ok(Some(n)) => {
                self.tx_stats.accepted = self.tx_stats.accepted + n as u64;
                if n > 0 {
                    self.tx_stats.publications = self.tx_stats.publications + 1;
                }
                self.tx_buffered = false;
                false
            },
            Ok(None) => {
                self.tx_stats.retries = self.tx_stats.retries + 1;
                true
            },
            Err(error) => {
                self.fail(error.kind);
                false
            },
        }
    }
}

/// A write that reached the writer of the endpoint: the writer, whatever it
/// became, answered `attempt`.
pub open spec fn transmitted<W, K, S>(
    before: DmeshIoHandle<W, K, S>,
    after: DmeshIoHandle<W, K, S>,
    attempt: TxAttempt,
    offered: nat,
    waker: K,
    result: Poll<Result<usize, IoError>>,
    raise: bool,
) -> bool {
    &&& after.writer is Some
    &&& after == (DmeshIoHandle { writer: after.writer, ..before }).after_attempt(
        attempt,
        offered,
        waker,
    )
    &&& attempt_outcome(attempt, offered, result, raise)
}

/// The bytes of `bufs` that a write with this result accepted.
pub open spec fn accepted_of(bufs: Seq<&[u8]>, result: Poll<Result<usize, IoError>>) -> Seq<u8> {
    match result {
        Poll::Ready(Ok(n)) => gathered(bufs).take(n as int),
        _ => Seq::empty(),
    }
}

/// A step in which `accepted` was accepted: unless an error is latched, it was
/// appended to what the endpoint's writer has accepted before, as `output`
/// tells of a writer, and an endpoint that says it has nothing buffered is
/// right. An error that is latched stays.
pub open spec fn sends<W, K, S>(
    output: spec_fn(W) -> Output,
    before: DmeshIoHandle<W, K, S>,
    after: DmeshIoHandle<W, K, S>,
    accepted: Seq<u8>,
) -> bool {
    &&& before.tx_error is Some ==> after.tx_error is Some
    &&& before.writer is Some && after.tx_error is None ==> {
        &&& after.writer is Some
        &&& output(after.writer->0).accepted() == output(before.writer->0).accepted() + accepted
        &&& (before.tx_buffered || output(before.writer->0).batch.len() == 0)
            ==> after.tx_buffered || output(after.writer->0).batch.len() == 0
    }
}

/// A run of an endpoint: `accepted[k]` is what the step from `states[k]`
/// accepted.
pub open spec fn is_output_run<W, K, S>(
    output: spec_fn(W) -> Output,
    states: Seq<DmeshIoHandle<W, K, S>>,
    accepted: Seq<Seq<u8>>,
) -> bool {
    &&& states.len() == accepted.len() + 1
    &&& forall|k: int|
        0 <= k < accepted.len() ==> sends(output, states[k], states[k + 1], #[trigger] accepted[k])
}

/// All of `parts`, one behind the other.
pub open spec fn all_of(parts: Seq<Seq<u8>>) -> Seq<u8>
    decreases parts.len(),
{
    if parts.len() == 0 {
        Seq::empty()
    } else {
        all_of(parts.drop_last()) + parts.last()
    }
}

impl DmeshIo {
    /// Offer `bufs` to the writer, from the thread `thread`. The boolean says
    /// whether the worker's signal is to be raised.
    pub fn poll_transmit<W: TxWriter, K, S>(
        &self,
        shared: &mut DmeshIoHandle<W, K, S>,
        bufs: &[&[u8]],
        thread: u64,
        waker: K,
    ) -> (r: (Poll<Result<usize, IoError>>, bool))
        requires
            old(shared).wf(),
            old(shared).tx_stats.has_room(saturated(total_len(bufs@))),
        ensures
            final(shared).wf(),
            // A writer that appends what it accepts has appended it.
            forall|output: spec_fn(W) -> Output|
                (forall|writer: &mut W, route: &BackendRoute, offered: &[&[u8]], attempt: TxAttempt|
                    #[trigger] call_ensures(W::write, (writer, route, offered), attempt) ==> output(
                        *writer,
                    ).after_write(output(*final(writer)), gathered(offered@), attempt))
                    ==> #[trigger] sends(
                    output,
                    *old(shared),
                    *final(shared),
                    accepted_of(bufs@, r.0),
                ),
            if total_len(bufs@) == 0 {
                // An empty write never reaches the writer.
                &&& r.0 == Poll::<Result<usize, IoError>>::Ready(Ok(0))
                &&& !r.1
                &&& *final(shared) == *old(shared)
            } else if old(shared).tx_closed || old(shared).tx_error is Some {
                &&& r.0 matches Poll::Ready(Err(e)) && e.says(
                    old(shared).tx_error.unwrap_or(ErrorKind::BrokenPipe),
                    "dmesh writer closed"@,
                )
                &&& !r.1
                &&& *final(shared) == *old(shared)
            } else if old(shared).owner is None {
                // Not bound yet; binding a writer wakes the task.
                &&& r.0 is Pending
                &&& !r.1
                &&& *final(shared) == (DmeshIoHandle { tx_waker: Some(waker), ..*old(shared) })
            } else if old(shared).owner != Some(thread) {
                &&& r.0 matches Poll::Ready(Err(e)) && e.says(
                    ErrorKind::Other,
                    "dmesh writer polled on wrong thread"@,
                )
                &&& r.1
                &&& *final(shared) == (DmeshIoHandle {
                    dirty: true,
                    ..old(shared).after_failure(ErrorKind::Other)
                })
            } else {
                // The writer is offered the buffers for the endpoint's route, and
                // what it answers decides.
                exists|writer: &mut W, attempt: TxAttempt|
                    *writer == old(shared).writer->0 && *final(writer) == final(shared).writer->0
                        && #[trigger] call_ensures(
                        W::write,
                        (writer, &old(shared).backend_route, bufs),
                        attempt,
                    ) && transmitted(
                        *old(shared),
                        *final(shared),
                        attempt,
                        saturated(total_len(bufs@)),
                        waker,
                        r.0,
                        r.1,
                    )
            },
    {
        let offered: usize = offered_len(bufs);
        if offered == 0 {
            return (Poll::Ready(Ok(0)), false);
        }
        if shared.tx_closed || shared.tx_error.is_some() {
            let kind: ErrorKind = match shared.tx_error {
                Some(kind) => kind,
                None => ErrorKind::BrokenPipe,
            };
            return (Poll::Ready(Err(IoError::new(kind, "dmesh writer closed"))), false);
        }
        let owner: u64 = match shared.owner {
            Some(owner) => owner,
            None => {
                park(&mut shared.tx_waker, waker);
                return (Poll::Pending, false);
            },
        };
        if owner != thread {
            shared.fail(ErrorKind::Other);
            shared.dirty = true;
            return (
                Poll::Ready(
                    Err(IoError::new(ErrorKind::Other, "dmesh writer polled on wrong thread")),
                ),
                true,
            );
        }
        let attempt = match &mut shared.writer {
            Some(writer) => writer.write(&shared.backend_route, bufs),
            None => TxAttempt::Retry,
        };
        let ghost answered = attempt;
        let r = shared.settle_write(attempt, offered, waker);
        proof {
            gathered_len(bufs@);
            appends(gathered(bufs@), answered);
        }
        assert(transmitted(
            *old(shared),
            *shared,
            answered,
            saturated(total_len(bufs@)),
            waker,
            r.0,
            r.1,
        ));
        r
    }

    /// Accepted bytes already belong to the transport, and the write that
    /// accepted them summoned the driver: a flush reports a latched error only.
    pub fn poll_flush<W, K, S>(&self, shared: &DmeshIoHandle<W, K, S>) -> (r: Result<(), IoError>)
        requires
            shared.wf(),
        ensures
            r is Ok <==> shared.tx_error is None,
            r matches Err(e) ==> e.says(shared.tx_error->0, "dmesh transport failed"@),
    {
        if !shared.failed {
            return Ok(());
        }
        let kind: ErrorKind = match shared.tx_error {
            Some(kind) => kind,
            None => ErrorKind::BrokenPipe,
        };
        Err(IoError::new(kind, "dmesh transport failed"))
    }

    /// Close admission now. The driver publishes the buffered data and only
    /// then the FIN; neither waits for delivery at the destination. The boolean
    /// says whether the worker's signal is to be raised.
    pub fn poll_shutdown<W, K, S>(&self, shared: &mut DmeshIoHandle<W, K, S>) -> (r: (
        Result<(), IoError>,
        bool,
    ))
        requires
            old(shared).wf(),
        ensures
            final(shared).wf(),
            r.0 is Ok <==> old(shared).tx_error is None,
            r.0 matches Err(e) ==> e.says(old(shared).tx_error->0, "dmesh transport failed"@),
            r.1 <==> r.0 is Ok && !old(shared).tx_closed && old(shared).signal is Some,
            *final(shared) == if r.0 is Ok && !old(shared).tx_closed {
                DmeshIoHandle { tx_closed: true, dirty: true, ..*old(shared) }
            } else {
                *old(shared)
            },
    {
        if let Some(kind) = shared.tx_error {
            return (Err(IoError::new(kind, "dmesh transport failed")), false);
        }
        if shared.tx_closed {
            return (Ok(()), false);
        }
        shared.tx_closed = true;
        shared.dirty = true;
        (Ok(()), shared.signal.is_some())
    }

    /// The stack drops its side. Without an orderly shutdown before, that
    /// aborts the output. Returns whether the worker's signal is to be raised.
    pub fn release<W, K, S>(self, shared: &mut DmeshIoHandle<W, K, S>) -> (raise: bool)
        requires
            old(shared).wf(),
        ensures
            final(shared).wf(),
            raise <==> !old(shared).tx_closed && old(shared).signal is Some,
            *final(shared) == if old(shared).tx_closed {
                *old(shared)
            } else {
                DmeshIoHandle { tx_aborted: true, tx_closed: true, dirty: true, ..*old(shared) }
            },
    {
        if shared.tx_closed {
            return false;
        }
        shared.tx_aborted = true;
        shared.tx_closed = true;
        shared.dirty = true;
        shared.signal.is_some()
    }

    /// The endpoint cannot be peeked: no byte is ever seen ahead of a read.
    pub fn peek(&self) -> (r: usize)
        ensures
            r == 0,
    {
        0
    }

    pub fn peer_addr(&self) -> (r: SocketAddr)
        ensures
            r == self.peer,
    {
        self.peer
    }

    pub fn dmesh_session(&self) -> (r: Option<SessionToken>)
        ensures
            r == self.session,
    {
        self.session
    }

    /// Install the backend choice of discovery.
    pub fn set_backend_route<W, K, S>(
        &self,
        shared: &mut DmeshIoHandle<W, K, S>,
        route: BackendRoute,
    )
        ensures
            *final(shared) == (DmeshIoHandle { backend_route: route, ..*old(shared) }),
    {
        shared.backend_route = route;
    }
}

impl<W, K, S> DmeshIoHandle<W, K, S> {
    /// The backend choice, installed before the connector hands the IO to the
    /// stack.
    pub fn backend_route(&self) -> (r: BackendRoute)
        ensures
            r == self.backend_route,
    {
        self.backend_route.clone()
    }

    /// Point the reader at the connection's mapped staging region. What is
    /// queued of an earlier region has to lie in the new one.
    pub fn set_staging(&mut self, base_addr: usize, len: usize)
        requires
            old(self).wf(),
            forall|i: int|
                0 <= i < old(self).segs@.len() ==> (#[trigger] old(self).segs@[i]).0 + old(
                    self,
                ).segs@[i].1 <= len,
        ensures
            final(self).wf(),
            *final(self) == (DmeshIoHandle {
                staging_base: base_addr,
                staging_len: len,
                ..*old(self)
            }),
    {
        self.staging_base = base_addr;
        self.staging_len = len;
    }

    /// Deliver a completed segment `[pos, pos + len)` of the staging region to
    /// the reader; no byte is moved. An empty segment delivers nothing and is
    /// not queued: a read that found it would look like the end of the input.
    /// The returned waker is to be woken.
    pub fn push_segment(&mut self, pos: u32, len: u32) -> (wake: Option<K>)
        requires
            old(self).wf(),
            pos + len <= old(self).staging_len,
        ensures
            final(self).wf(),
            wake == old(self).rx_waker,
            final(self).segs@ == if len > 0 {
                old(self).segs@.push((pos, len))
            } else {
                old(self).segs@
            },
            *final(self) == (DmeshIoHandle {
                segs: final(self).segs,
                rx_waker: None,
                ..*old(self)
            }),
            forall|staging: Seq<u8>|
                staging.len() == old(self).staging_len ==> moves(
                    old(self).input(staging),
                    #[trigger] final(self).input(staging),
                    Moved::In(staging.subrange(pos as int, pos + len)),
                ),
    {
        if len > 0 {
            self.segs.push_back((pos, len));
        }
        let wake = self.rx_waker.take();
        proof {
            assert forall|staging: Seq<u8>|
                staging.len() == old(self).staging_len implies #[trigger] self.input(staging)
                == old(self).input(staging) + staging.subrange(pos as int, pos + len) by {
                if len > 0 {
                    segments_append(staging, old(self).segs@, (pos, len));
                }
                segments_long_enough(staging, old(self).segs@);
                assert(self.input(staging) =~= old(self).input(staging) + staging.subrange(
                    pos as int,
                    pos + len,
                ));
            }
        }
        wake
    }

    /// Deliver owned bytes to the reader, ahead of any queued segment. The
    /// returned waker is to be woken.
    pub fn push_rx(&mut self, bytes: &[u8]) -> (wake: Option<K>)
        requires
            old(self).wf(),
        ensures
            final(self).wf(),
            wake == old(self).rx_waker,
            final(self).rx@ == old(self).rx@ + bytes@,
            *final(self) == (DmeshIoHandle { rx: final(self).rx, rx_waker: None, ..*old(self) }),
    {
        self.rx.extend_from_slice(bytes);
        assert(self.rx@ =~= old(self).rx@ + bytes@);
        self.rx_waker.take()
    }

    /// Signal peer half-close: pending data drains, then reads return EOF. The
    /// returned waker is to be woken.
    pub fn close_rx(&mut self) -> (wake: Option<K>)
        requires
            old(self).wf(),
        ensures
            final(self).wf(),
            wake == old(self).rx_waker,
            *final(self) == (DmeshIoHandle { rx_closed: true, rx_waker: None, ..*old(self) }),
    {
        self.rx_closed = true;
        self.rx_waker.take()
    }

    /// Whether the stack touched this endpoint since the driver last asked.
    pub fn take_dirty(&mut self) -> (r: bool)
        ensures
            r == old(self).dirty,
            *final(self) == (DmeshIoHandle { dirty: false, ..*old(self) }),
    {
        let r = self.dirty;
        self.dirty = false;
        r
    }

    pub fn take_tx_stats(&mut self) -> (r: TxStats)
        ensures
            r == old(self).tx_stats,
            *final(self) == (DmeshIoHandle { tx_stats: TxStats::zero(), ..*old(self) }),
    {
        let r = self.tx_stats;
        self.tx_stats = TxStats::default();
        r
    }

    /// True once the stack shut down its write half and tx is fully drained.
    pub fn tx_finished(&self) -> (r: bool)
        ensures
            r == self.spec_tx_finished(),
    {
        self.tx_closed && !self.tx_buffered
    }

    /// True while the reader still has undelivered or undrained data.
    pub fn has_rx(&self) -> (r: bool)
        requires
            self.wf(),
        ensures
            r == self.spec_has_rx(),
            forall|staging: Seq<u8>|
                staging.len() == self.staging_len ==> (r <==> (#[trigger] self.input(
                    staging,
                )).len() > 0),
    {
        proof {
            assert forall|staging: Seq<u8>| staging.len() == self.staging_len implies (
            self.spec_has_rx() <==> (#[trigger] self.input(staging)).len() > 0) by {
                self.input_is_unread(staging);
            }
        }
        self.rx.len() > 0 || self.segs.len() > 0
    }

    pub fn drain_state(&self) -> (r: DrainState)
        requires
            self.wf(),
        ensures
            r == self.spec_drain_state(),
    {
        DrainState {
            has_rx: self.has_rx(),
            tx_finished: self.tx_finished(),
            tx_aborted: self.tx_aborted || self.tx_error.is_some(),
        }
    }
}

/// What a pump from `thread` makes of an endpoint before it reports.
pub open spec fn pump_step<W, K, S>(
    before: DmeshIoHandle<W, K, S>,
    after: DmeshIoHandle<W, K, S>,
    thread: u64,
    flushed: Result<Option<usize>, IoError>,
    blocked: bool,
) -> bool {
    if !before.flushes() {
        after == before && !blocked
    } else if before.owner != Some(thread) {
        after == before.after_failure(ErrorKind::Other) && !blocked
    } else {
        &&& after.writer is Some
        &&& after == (DmeshIoHandle { writer: after.writer, ..before }).after_flush(flushed)
        &&& blocked <==> flushed == Ok::<Option<usize>, IoError>(None)
    }
}

/// A pump: what it publishes, then what it reports and leaves.
pub open spec fn pumped<W, K, S>(
    before: DmeshIoHandle<W, K, S>,
    mid: DmeshIoHandle<W, K, S>,
    after: DmeshIoHandle<W, K, S>,
    thread: u64,
    flushed: Result<Option<usize>, IoError>,
    r: (Pumped, Option<K>),
) -> bool {
    &&& pump_step(before, mid, thread, flushed, r.0.blocked)
    &&& after == mid.after_pump()
    &&& r.0.stats == mid.tx_stats
    &&& r.0.state == mid.spec_drain_state()
    &&& r.1 == mid.pump_wakes()
}

impl<W: TxWriter, K, S> DmeshIoHandle<W, K, S> {
    /// One driver pass over the endpoint, on the thread `thread`: publish the
    /// owned batch if any, wake a writer that can make progress again, and
    /// report what the pass saw. The returned waker is to be woken.
    pub fn pump(&mut self, thread: u64) -> (r: (Pumped, Option<K>))
        requires
            old(self).wf(),
            old(self).tx_stats.has_room(0),
        ensures
            final(self).wf(),
            exists|mid: Self, flushed: Result<Option<usize>, IoError>|
                #[trigger] pumped(*old(self), mid, *final(self), thread, flushed, r) && (
                // What the writer answers to a flush decides.
                old(self).flushes() && old(self).owner == Some(thread) ==> exists|writer: &mut W|
                    *writer == old(self).writer->0 && *final(writer) == final(self).writer->0
                        && #[trigger] call_ensures(W::flush, (writer,), flushed)),
            // A writer that publishes its batch or keeps it has lost nothing.
            forall|output: spec_fn(W) -> Output|
                (forall|writer: &mut W, flushed: Result<Option<usize>, IoError>|
                    #[trigger] call_ensures(W::flush, (writer,), flushed) ==> output(
                        *writer,
                    ).after_flush(output(*final(writer)), flushed)) ==> #[trigger] sends(
                    output,
                    *old(self),
                    *final(self),
                    Seq::empty(),
                ),
    {
        let mut blocked: bool = false;
        let ghost mut answered: Result<Option<usize>, IoError> = Ok(None);
        if self.tx_buffered && self.tx_error.is_none() && !self.tx_aborted {
            let owned: bool = match self.owner {
                Some(owner) => owner == thread,
                None => false,
            };
            if !owned {
                self.fail(ErrorKind::Other);
            } else {
                let flushed = match &mut self.writer {
                    Some(writer) => writer.flush(),
                    None => Ok(None),
                };
                proof {
                    answered = flushed;
                    loses_nothing(flushed);
                }
                blocked = self.settle_flush(flushed);
            }
        }
        let ghost mid = *self;
        let wake = if !self.tx_buffered || self.tx_error.is_some() {
            self.tx_waker.take()
        } else {
            None
        };
        let stats = self.tx_stats;
        self.tx_stats = TxStats::default();
        let state = self.drain_state();
        let r = (Pumped { stats, state, blocked }, wake);
        assert(pumped(*old(self), mid, *self, thread, answered, r));
        r
    }

    /// Abort both halves and discard all buffered data, on the thread `thread`.
    /// The two wakers, of the reader and of the writer, are to be woken.
    ///
    /// The driver must call this before returning custody for unread segments.
    /// Once this returns, no stack task can retain a reference to a queued
    /// segment or enqueue more output. An unpublished batch is cancelled here
    /// on the owning thread; elsewhere the connection close reclaims it.
    pub fn abort(&mut self, thread: u64) -> (r: (Option<K>, Option<K>))
        requires
            old(self).wf(),
        ensures
            final(self).wf(),
            r == (old(self).rx_waker, old(self).tx_waker),
            final(self).rx@.len() == 0,
            final(self).segs@.len() == 0,
            *final(self) == (DmeshIoHandle {
                rx: final(self).rx,
                segs: final(self).segs,
                seg_read_off: 0,
                staging_base: 0,
                staging_len: 0,
                rx_closed: true,
                rx_waker: None,
                writer: None,
                owner: None,
                signal: None,
                tx_error: Some(ErrorKind::BrokenPipe),
                tx_buffered: false,
                tx_closed: true,
                tx_aborted: true,
                tx_waker: None,
                failed: true,
                ..*old(self)
            }),
            // The bound writer drops its batch, on the thread that owns it.
            old(self).writer is Some && old(self).owner == Some(thread) ==> exists|writer: &mut W|
                *writer == old(self).writer->0 && #[trigger] call_ensures(W::cancel, (writer,), ()),
    {
        self.rx.clear();
        self.segs.clear();
        self.seg_read_off = 0;
        self.staging_base = 0;
        self.staging_len = 0;
        self.rx_closed = true;
        let writer = self.writer.take();
        let owner = self.owner.take();
        self.signal = None;
        self.tx_buffered = false;
        self.tx_closed = true;
        self.tx_aborted = true;
        self.tx_error = Some(ErrorKind::BrokenPipe);
        self.failed = true;
        if let Some(mut writer) = writer {
            let owned: bool = match owner {
                Some(owner) => owner == thread,
                None => false,
            };
            if owned {
                writer.cancel();
            }
        }
        (self.rx_waker.take(), self.tx_waker.take())
    }

    /// Install the writer once, on the owning thread; a late registration of a
    /// closed endpoint is ignored. The returned waker is to be woken.
    pub fn bind_writer(&mut self, writer: W, signal: S, thread: u64, origin: bool) -> (wake: Option<
        K,
    >)
        requires
            old(self).wf(),
        ensures
            final(self).wf(),
            if old(self).tx_closed || old(self).writer is Some {
                wake is None && *final(self) == *old(self)
            } else {
                &&& wake == old(self).tx_waker
                &&& *final(self) == (DmeshIoHandle {
                    backend_route: if origin {
                        BackendRoute::Origin
                    } else {
                        old(self).backend_route
                    },
                    writer: Some(writer),
                    owner: Some(thread),
                    signal: Some(signal),
                    tx_waker: None,
                    ..*old(self)
                })
            },
    {
        if self.tx_closed || self.writer.is_some() {
            return None;
        }
        if origin {
            self.backend_route = BackendRoute::Origin;
        }
        self.writer = Some(writer);
        self.owner = Some(thread);
        self.signal = Some(signal);
        self.tx_waker.take()
    }
}

/// One more segment adds its bytes at the end.
proof fn segments_append(staging: Seq<u8>, segs: Seq<(u32, u32)>, seg: (u32, u32))
    requires
        seg.0 + seg.1 <= staging.len(),
    ensures
        segment_bytes(staging, segs.push(seg)) == segment_bytes(staging, segs) + staging.subrange(
            seg.0 as int,
            seg.0 + seg.1,
        ),
    decreases segs.len(),
{
    let bytes = staging.subrange(seg.0 as int, seg.0 + seg.1);
    if segs.len() == 0 {
        reveal_with_fuel(segment_bytes, 2);
        assert(segs.push(seg).drop_first() =~= segs);
        assert(segment_bytes(staging, segs.push(seg)) =~= bytes);
        assert(segment_bytes(staging, segs) + bytes =~= bytes);
    } else {
        segments_append(staging, segs.drop_first(), seg);
        assert(segs.push(seg).drop_first() =~= segs.drop_first().push(seg));
        assert(segment_bytes(staging, segs.push(seg)) =~= segment_bytes(staging, segs) + bytes);
    }
}

/// The segments hold at least the bytes of the oldest one.
proof fn segments_long_enough(staging: Seq<u8>, segs: Seq<(u32, u32)>)
    requires
        forall|i: int| 0 <= i < segs.len() ==> (#[trigger] segs[i]).0 + segs[i].1 <= staging.len(),
    ensures
        segs.len() > 0 ==> segment_bytes(staging, segs).len() >= segs[0].1,
{
}

/// What writes accepted is published in order: over any run of an endpoint
/// whose writer begins with nothing, as long as no error is latched, what the
/// writer has published and then what it still owns are the accepted bytes, in
/// the order in which they were accepted. Once the endpoint has nothing buffered,
/// as where its output is finished, all of them have been published. `output`
/// tells of a writer what it has made of them.
pub proof fn accepted_bytes_are_published_in_order<W, K, S>(
    output: spec_fn(W) -> Output,
    states: Seq<DmeshIoHandle<W, K, S>>,
    accepted: Seq<Seq<u8>>,
)
    requires
        is_output_run(output, states, accepted),
        states[0].writer is Some,
        output(states[0].writer->0).accepted().len() == 0,
        states.last().tx_error is None,
    ensures
        states.last().writer is Some,
        output(states.last().writer->0).accepted() == all_of(accepted),
        output(states.last().writer->0).published.is_prefix_of(all_of(accepted)),
        !states.last().tx_buffered ==> output(states.last().writer->0).published == all_of(
            accepted,
        ),
    decreases accepted.len(),
{
    if accepted.len() == 0 {
        assert(output(states[0].writer->0).accepted() =~= all_of(accepted));
        assert(output(states[0].writer->0).published =~= all_of(accepted));
    } else {
        let n = accepted.len() as int;
        let before = states.drop_last();
        let earlier = accepted.drop_last();
        assert forall|k: int| 0 <= k < earlier.len() implies sends(
            output,
            before[k],
            before[k + 1],
            #[trigger] earlier[k],
        ) by {
            assert(accepted[k] == earlier[k]);
        }
        assert(sends(output, states[n - 1], states[n - 1 + 1], accepted[n - 1]));
        assert(before.last() == states[n - 1]);
        accepted_bytes_are_published_in_order(output, before, earlier);
        let was = output(states[n - 1].writer->0);
        let is = output(states[n].writer->0);
        if !states[n - 1].tx_buffered {
            assert(was.accepted().len() == was.published.len() + was.batch.len());
        }
        if is.batch.len() == 0 {
            assert(is.published =~= is.accepted());
        }
    }
}

/// Buffered data precedes the FIN: a pump that leaves an endpoint with a batch
/// finished has published that batch, and counted what was published.
pub proof fn data_precedes_the_fin<W, K, S>(
    before: DmeshIoHandle<W, K, S>,
    mid: DmeshIoHandle<W, K, S>,
    after: DmeshIoHandle<W, K, S>,
    thread: u64,
    flushed: Result<Option<usize>, IoError>,
    r: (Pumped, Option<K>),
)
    requires
        before.wf(),
        before.tx_buffered,
        pumped(before, mid, after, thread, flushed, r),
        r.0.state.tx_finished,
    ensures
        before.owner == Some(thread),
        flushed matches Ok(Some(n)) && r.0.stats.accepted == n,
        before.tx_closed,
        !after.tx_buffered,
{
}

/// A latched error stays: no write and no pump clears it, every later write
/// and flush reports it, and the drain state says that the output is aborted.
pub proof fn a_latched_error_stays<W, K, S>(
    before: DmeshIoHandle<W, K, S>,
    mid: DmeshIoHandle<W, K, S>,
    after: DmeshIoHandle<W, K, S>,
    thread: u64,
    flushed: Result<Option<usize>, IoError>,
    r: (Pumped, Option<K>),
)
    requires
        before.wf(),
        before.tx_error is Some,
        pumped(before, mid, after, thread, flushed, r),
    ensures
        after.tx_error == before.tx_error,
        r.0.state.tx_aborted,
        !r.0.blocked,
        r.1 == before.tx_waker,
{
}

/// A refused write changes neither the input nor what is buffered: only the
/// retry is counted and the task parked.
pub proof fn a_refused_write_keeps_no_bytes<W, K, S>(
    before: DmeshIoHandle<W, K, S>,
    offered: nat,
    waker: K,
)
    ensures
        ({
            let after = before.after_attempt(TxAttempt::Retry, offered, waker);
            &&& after.rx == before.rx
            &&& after.segs == before.segs
            &&& after.tx_buffered == before.tx_buffered
            &&& after.tx_stats.copied == before.tx_stats.copied
            &&& after.tx_error == before.tx_error
        }),
{
}

/// A read takes owned bytes first, as many as there is room for; where there is
/// none, what is unread of the oldest segment, as much as there is room for; and
/// where there is none either, it is the end where the peer has closed its half,
/// and otherwise the reader waits. What is read is appended, and taken off the
/// front. Taking the last of the input marks the endpoint for the driver.
pub proof fn a_read_takes_the_oldest_input<W, K, S>(
    io: DmeshIo,
    staging: &[u8],
    room: usize,
    waker: K,
)
    requires
        room > 0,
    ensures
        forall|shared: &mut DmeshIoHandle<W, K, S>, buf: &mut Vec<u8>, r: Poll<()>| #[trigger]
            call_ensures(
                DmeshIo::poll_read::<W, K, S>,
                (&io, shared, staging, buf, room, waker),
                r,
            ) && shared.wf() && staging@.len() == shared.staging_len ==> {
                let owned = shared.rx@.len() as int;
                let (pos, len) = shared.segs@[0];
                let off = shared.seg_read_off as int;
                let n = if owned > 0 {
                    if room < owned {
                        room as int
                    } else {
                        owned
                    }
                } else if room < len - off {
                    room as int
                } else {
                    len - off
                };
                &&& owned > 0 ==> r is Ready && final(buf)@ == buf@ + shared.rx@.take(n)
                    && final(shared).rx@ == shared.rx@.skip(n) && final(shared).segs@ == shared.segs@
                &&& owned > 0 && n == owned && shared.segs@.len() == 0 ==> final(shared).dirty
                &&& owned == 0 && shared.segs@.len() > 0 ==> r is Ready && final(buf)@ == buf@
                    + staging@.subrange(pos + off, pos + off + n)
                &&& owned == 0 && shared.segs@.len() > 0 && n < len - off ==> final(shared).segs@
                    == shared.segs@ && final(shared).seg_read_off == off + n && final(shared).dirty
                    == shared.dirty
                &&& owned == 0 && shared.segs@.len() > 0 && n == len - off ==> final(shared).segs@
                    == shared.segs@.drop_first() && final(shared).seg_read_off == 0
                &&& owned == 0 && shared.segs@.len() == 1 && n == len - off ==> final(shared).dirty
                &&& owned == 0 && shared.segs@.len() == 0 && shared.rx_closed ==> r is Ready
                    && final(buf)@ == buf@
                &&& owned == 0 && shared.segs@.len() == 0 && !shared.rx_closed ==> r is Pending
                    && final(buf)@ == buf@ && final(shared).rx_waker == Some(waker)
                &&& final(shared).rx_closed == shared.rx_closed
                &&& final(shared).tx_closed == shared.tx_closed && final(shared).tx_error
                    == shared.tx_error && final(shared).tx_buffered == shared.tx_buffered
            },
{
}

/// What is delivered reaches the reader behind what was delivered before: owned
/// bytes behind owned bytes, and a segment, unless it is empty, behind the
/// segments. The peer's close is known to the reader. Each wakes the reader that
/// waits.
pub proof fn a_delivery_wakes_the_reader<W, K, S>(pos: u32, len: u32, bytes: &[u8])
    ensures
        forall|shared: &mut DmeshIoHandle<W, K, S>, wake: Option<K>| #[trigger]
            call_ensures(DmeshIoHandle::<W, K, S>::push_segment, (shared, pos, len), wake) ==> {
                &&& len > 0 ==> final(shared).segs@ == shared.segs@.push((pos, len))
                &&& len == 0 ==> final(shared).segs@ == shared.segs@
                &&& wake == shared.rx_waker && final(shared).rx_waker is None
                &&& final(shared).rx == shared.rx && final(shared).rx_closed == shared.rx_closed
            },
        forall|shared: &mut DmeshIoHandle<W, K, S>, wake: Option<K>| #[trigger]
            call_ensures(DmeshIoHandle::<W, K, S>::push_rx, (shared, bytes), wake) ==> {
                &&& final(shared).rx@ == shared.rx@ + bytes@
                &&& wake == shared.rx_waker && final(shared).rx_waker is None
                &&& final(shared).segs == shared.segs && final(shared).rx_closed
                    == shared.rx_closed
            },
        forall|shared: &mut DmeshIoHandle<W, K, S>, wake: Option<K>| #[trigger]
            call_ensures(DmeshIoHandle::<W, K, S>::close_rx, (shared,), wake) ==> {
                &&& final(shared).rx_closed
                &&& wake == shared.rx_waker && final(shared).rx_waker is None
                &&& final(shared).rx == shared.rx && final(shared).segs == shared.segs
            },
{
}

/// A write of nothing is done at once. A write to an endpoint that is closed or
/// has failed is refused with its error, or as a broken pipe; one before a writer
/// is bound waits; and one from another thread than the writer's fails the
/// endpoint, and calls the driver. Every other write goes to the writer.
pub proof fn a_write_is_refused_before_the_writer<W: TxWriter, K, S>(
    io: DmeshIo,
    bufs: &[&[u8]],
    thread: u64,
    waker: K,
)
    ensures
        forall|shared: &mut DmeshIoHandle<W, K, S>, r: (Poll<Result<usize, IoError>>, bool)|
            #[trigger]
            call_ensures(
                DmeshIo::poll_transmit::<W, K, S>,
                (&io, shared, bufs, thread, waker),
                r,
            ) ==> {
                let offers = gathered(bufs@).len() > 0;
                let refused = shared.tx_closed || shared.tx_error is Some;
                &&& !offers ==> r.0 == Poll::<Result<usize, IoError>>::Ready(Ok(0)) && !r.1
                    && *final(shared) == *shared
                &&& offers && refused ==> {
                    &&& r.0 matches Poll::Ready(Err(error))
                    &&& error.message@ == "dmesh writer closed"@
                    &&& shared.tx_error is Some ==> error.kind == shared.tx_error->0
                    &&& shared.tx_error is None ==> error.kind == ErrorKind::BrokenPipe
                    &&& !r.1 && *final(shared) == *shared
                }
                &&& offers && !refused && shared.owner is None ==> r.0 is Pending && !r.1
                    && final(shared).tx_waker == Some(waker) && final(shared).tx_error is None
                &&& offers && !refused && shared.owner is Some && shared.owner->0 != thread ==> {
                    &&& r.0 matches Poll::Ready(Err(error))
                    &&& error.says(ErrorKind::Other, "dmesh writer polled on wrong thread"@)
                    &&& r.1
                    &&& final(shared).failed && final(shared).tx_error == Some(ErrorKind::Other)
                    &&& final(shared).dirty
                }
                &&& offers && !refused && shared.owner == Some(thread) ==> exists|
                    writer: &mut W,
                    attempt: TxAttempt,
                |
                    *writer == shared.writer->0 && #[trigger] call_ensures(
                        W::write,
                        (writer, &shared.backend_route, bufs),
                        attempt,
                    ) && match attempt {
                        TxAttempt::Buffered(got) => {
                            let offered = gathered(bufs@).len();
                            let room = if offered <= usize::MAX {
                                offered as int
                            } else {
                                usize::MAX as int
                            };
                            if 1 <= got <= room {
                                r.0 == Poll::<Result<usize, IoError>>::Ready(Ok(got)) && r.1
                                    && final(shared).tx_buffered && final(shared).tx_error is None
                            } else {
                                &&& r.0 matches Poll::Ready(Err(error))
                                &&& error.says(ErrorKind::Other, "invalid arena batch length"@)
                                &&& r.1 && final(shared).tx_error == Some(ErrorKind::Other)
                            }
                        },
                        TxAttempt::Retry => r.0 is Pending && !r.1 && final(shared).tx_waker
                            == Some(waker) && final(shared).tx_buffered == shared.tx_buffered
                            && final(shared).tx_error is None,
                        TxAttempt::Failed(error) => r.0 == Poll::<Result<usize, IoError>>::Ready(
                            Err(error),
                        ) && r.1 && final(shared).tx_error == Some(error.kind),
                    }
            },
{
    gathered_len(bufs@);
    assert forall|shared: &mut DmeshIoHandle<W, K, S>, r: (Poll<Result<usize, IoError>>, bool)|
        #[trigger]
        call_ensures(DmeshIo::poll_transmit::<W, K, S>, (&io, shared, bufs, thread, waker), r)
            && gathered(bufs@).len() > 0 && !(shared.tx_closed || shared.tx_error is Some)
            && shared.owner == Some(thread) implies exists|writer: &mut W, attempt: TxAttempt|
        *writer == shared.writer->0 && #[trigger] call_ensures(
            W::write,
            (writer, &shared.backend_route, bufs),
            attempt,
        ) && match attempt {
            TxAttempt::Buffered(got) => {
                let offered = gathered(bufs@).len();
                let room = if offered <= usize::MAX {
                    offered as int
                } else {
                    usize::MAX as int
                };
                if 1 <= got <= room {
                    r.0 == Poll::<Result<usize, IoError>>::Ready(Ok(got)) && r.1
                        && final(shared).tx_buffered && final(shared).tx_error is None
                } else {
                    &&& r.0 matches Poll::Ready(Err(error))
                    &&& error.says(ErrorKind::Other, "invalid arena batch length"@)
                    &&& r.1 && final(shared).tx_error == Some(ErrorKind::Other)
                }
            },
            TxAttempt::Retry => r.0 is Pending && !r.1 && final(shared).tx_waker == Some(waker)
                && final(shared).tx_buffered == shared.tx_buffered && final(shared).tx_error is None,
            TxAttempt::Failed(error) => r.0 == Poll::<Result<usize, IoError>>::Ready(Err(error))
                && r.1 && final(shared).tx_error == Some(error.kind),
        } by {
        let (writer, attempt) = choose|writer: &mut W, attempt: TxAttempt|
            *writer == shared.writer->0 && *final(writer) == final(shared).writer->0
                && #[trigger] call_ensures(
                W::write,
                (writer, &shared.backend_route, bufs),
                attempt,
            ) && transmitted(
                *shared,
                *final(shared),
                attempt,
                saturated(total_len(bufs@)),
                waker,
                r.0,
                r.1,
            );
        assert(call_ensures(W::write, (writer, &shared.backend_route, bufs), attempt));
    }
}

/// What the writer answers to a write decides: a prefix of what was offered is
/// counted as copied and buffered; more than that, or none of it, fails the
/// endpoint, as an error of the writer does; and a refusal parks the task, counts
/// the retry and calls nobody.
pub proof fn a_write_is_settled_by_its_answer<W, K, S>(
    attempt: TxAttempt,
    offered: usize,
    waker: K,
)
    ensures
        forall|shared: &mut DmeshIoHandle<W, K, S>, r: (Poll<Result<usize, IoError>>, bool)|
            #[trigger]
            call_ensures(
                DmeshIoHandle::<W, K, S>::settle_write,
                (shared, attempt, offered, waker),
                r,
            ) && shared.tx_stats.copied + offered <= u64::MAX && shared.tx_stats.retries < u64::MAX
                && shared.tx_stats.errors < u64::MAX ==> {
                let (before, after) = (shared.tx_stats, final(shared).tx_stats);
                &&& attempt matches TxAttempt::Buffered(n) ==> {
                    &&& 1 <= n <= offered ==> r.0 == Poll::<Result<usize, IoError>>::Ready(Ok(n))
                        && after.copied == before.copied + n && final(shared).tx_buffered
                        && final(shared).tx_error == shared.tx_error
                    &&& n == 0 || n > offered ==> (r.0 matches Poll::Ready(Err(error))
                        && error.says(ErrorKind::Other, "invalid arena batch length"@))
                        && final(shared).tx_error == Some(ErrorKind::Other) && final(shared).failed
                        && after.errors == before.errors + 1 && after.copied == before.copied
                    &&& r.1
                }
                &&& attempt is Retry ==> r.0 is Pending && !r.1 && after.retries == before.retries
                    + 1 && final(shared).tx_waker == Some(waker) && after.copied == before.copied
                    && final(shared).tx_buffered == shared.tx_buffered
                &&& attempt matches TxAttempt::Failed(error) ==> r.0 == Poll::<
                    Result<usize, IoError>,
                >::Ready(Err(error)) && r.1 && final(shared).tx_error == Some(error.kind)
                    && final(shared).failed && after.errors == before.errors + 1
                &&& final(shared).dirty
            },
{
}

/// What the writer answers to a flush decides: what was published is counted,
/// with one publication where it was anything, and nothing is buffered any more;
/// a refusal keeps the batch and counts a retry; an error fails the endpoint.
pub proof fn a_flush_is_settled_by_its_answer<W, K, S>(flushed: Result<Option<usize>, IoError>)
    ensures
        forall|shared: &mut DmeshIoHandle<W, K, S>, blocked: bool| #[trigger]
            call_ensures(DmeshIoHandle::<W, K, S>::settle_flush, (shared, flushed), blocked)
                && shared.tx_stats.retries < u64::MAX && shared.tx_stats.errors < u64::MAX ==> {
                let (before, after) = (shared.tx_stats, final(shared).tx_stats);
                &&& flushed matches Ok(Some(n)) ==> !blocked && after.accepted == n
                    && after.publications == (if n > 0 {
                    1int
                } else {
                    0
                }) && !final(shared).tx_buffered && final(shared).tx_error == shared.tx_error
                &&& flushed matches Ok(None) ==> blocked && after.retries == before.retries + 1
                    && final(shared).tx_buffered == shared.tx_buffered && final(shared).tx_error
                    == shared.tx_error
                &&& flushed matches Err(error) ==> !blocked && final(shared).tx_error == Some(
                    error.kind,
                ) && final(shared).failed && after.errors == before.errors + 1
                    && final(shared).tx_buffered == shared.tx_buffered
            },
{
}

/// A flush and a shutdown report the error that is latched. A shutdown without
/// one closes the write half, once, and calls the driver where there is one.
pub proof fn a_latched_error_is_reported<W, K, S>(io: DmeshIo)
    ensures
        forall|shared: DmeshIoHandle<W, K, S>, r: Result<(), IoError>| #[trigger]
            call_ensures(DmeshIo::poll_flush::<W, K, S>, (&io, &shared), r) ==> {
                &&& shared.tx_error is None ==> r is Ok
                &&& shared.tx_error is Some ==> r is Err && r->Err_0.says(
                    shared.tx_error->0,
                    "dmesh transport failed"@,
                )
            },
        forall|shared: &mut DmeshIoHandle<W, K, S>, r: (Result<(), IoError>, bool)| #[trigger]
            call_ensures(DmeshIo::poll_shutdown::<W, K, S>, (&io, shared), r) ==> {
                let fresh = shared.tx_error is None && !shared.tx_closed;
                &&& shared.tx_error is None ==> r.0 is Ok
                &&& shared.tx_error is Some ==> r.0 is Err && r.0->Err_0.says(
                    shared.tx_error->0,
                    "dmesh transport failed"@,
                )
                &&& r.1 <==> fresh && shared.signal is Some
                &&& fresh ==> final(shared).tx_closed && final(shared).dirty
                &&& !fresh ==> *final(shared) == *shared
                &&& !final(shared).tx_aborted || shared.tx_aborted
                &&& final(shared).tx_buffered == shared.tx_buffered
            },
{
}

/// An endpoint that the stack drops is aborted unless its write half was shut
/// down before, and then the driver is called where there is one.
pub proof fn a_dropped_endpoint_is_aborted<W, K, S>(io: DmeshIo)
    ensures
        forall|shared: &mut DmeshIoHandle<W, K, S>, raise: bool| #[trigger]
            call_ensures(DmeshIo::release::<W, K, S>, (io, shared), raise) ==> {
                &&& !shared.tx_closed ==> final(shared).tx_aborted && final(shared).tx_closed
                    && final(shared).dirty && raise == (shared.signal is Some)
                &&& shared.tx_closed ==> *final(shared) == *shared && !raise
            },
{
}

/// Output is finished once the write half is closed and nothing is buffered; it
/// is aborted where the endpoint was dropped or has failed; and there is input
/// while a byte or a segment is unread.
pub proof fn a_drain_state_says_what_is_left<W, K, S>(shared: DmeshIoHandle<W, K, S>)
    ensures
        forall|r: DrainState| #[trigger]
            call_ensures(DmeshIoHandle::<W, K, S>::drain_state, (&shared,), r) ==> {
                &&& r.has_rx <==> shared.rx@.len() > 0 || shared.segs@.len() > 0
                &&& r.tx_finished <==> shared.tx_closed && !shared.tx_buffered
                &&& r.tx_aborted <==> shared.tx_aborted || shared.tx_error is Some
            },
        forall|r: bool| #[trigger]
            call_ensures(DmeshIoHandle::<W, K, S>::has_rx, (&shared,), r) ==> (r
                <==> shared.rx@.len() > 0 || shared.segs@.len() > 0),
        forall|r: bool| #[trigger]
            call_ensures(DmeshIoHandle::<W, K, S>::tx_finished, (&shared,), r) ==> (r
                <==> shared.tx_closed && !shared.tx_buffered),
{
}

/// What the driver asks of an endpoint it is told once: the mark that the stack
/// touched it, and what was counted since.
pub proof fn marks_and_counts_are_taken_once<W, K, S>()
    ensures
        forall|shared: &mut DmeshIoHandle<W, K, S>, r: bool| #[trigger]
            call_ensures(DmeshIoHandle::<W, K, S>::take_dirty, (shared,), r) ==> r == shared.dirty
                && !final(shared).dirty && final(shared).tx_stats == shared.tx_stats,
        forall|shared: &mut DmeshIoHandle<W, K, S>, r: TxStats| #[trigger]
            call_ensures(DmeshIoHandle::<W, K, S>::take_tx_stats, (shared,), r) ==> {
                let left = final(shared).tx_stats;
                &&& r == shared.tx_stats
                &&& left.accepted == 0 && left.publications == 0 && left.copied == 0
                &&& left.retries == 0 && left.errors == 0
                &&& final(shared).dirty == shared.dirty
            },
{
}

/// A pump flushes the writer exactly where something is buffered and the
/// endpoint has neither failed nor been dropped, and only on the writer's
/// thread: on another one it fails the endpoint. The writer that waits is woken
/// once nothing is buffered or an error is latched. The counts are handed out,
/// and start anew.
pub proof fn a_pump_publishes_what_is_buffered<W: TxWriter, K, S>(thread: u64)
    ensures
        forall|shared: &mut DmeshIoHandle<W, K, S>, r: (Pumped, Option<K>)| #[trigger]
            call_ensures(DmeshIoHandle::<W, K, S>::pump, (shared, thread), r) ==> {
                let publishes = shared.tx_buffered && shared.tx_error is None && !shared.tx_aborted;
                let after = *final(shared);
                &&& !publishes ==> !r.0.blocked && after.tx_buffered == shared.tx_buffered
                    && after.tx_error == shared.tx_error && r.0.stats == shared.tx_stats
                &&& publishes && shared.owner != Some(thread) ==> !r.0.blocked && after.tx_error
                    == Some(ErrorKind::Other) && after.tx_buffered
                &&& publishes && shared.owner == Some(thread) ==> exists|
                    writer: &mut W,
                    flushed: Result<Option<usize>, IoError>,
                |
                    *writer == shared.writer->0 && #[trigger] call_ensures(
                        W::flush,
                        (writer,),
                        flushed,
                    ) && match flushed {
                        Ok(Some(n)) => !r.0.blocked && !after.tx_buffered && after.tx_error is None
                            && r.0.stats.accepted == n && r.0.stats.publications == (if n > 0 {
                            1int
                        } else {
                            0
                        }),
                        Ok(None) => r.0.blocked && after.tx_buffered && after.tx_error is None,
                        Err(error) => !r.0.blocked && after.tx_buffered && after.tx_error == Some(
                            error.kind,
                        ),
                    }
                &&& !after.tx_buffered || after.tx_error is Some ==> r.1 == shared.tx_waker
                    && after.tx_waker is None
                &&& after.tx_buffered && after.tx_error is None ==> r.1 is None && after.tx_waker
                    == shared.tx_waker
                &&& r.0.state.tx_finished <==> shared.tx_closed && !after.tx_buffered
                &&& r.0.state.tx_aborted <==> shared.tx_aborted || after.tx_error is Some
                &&& r.0.state.has_rx <==> shared.rx@.len() > 0 || shared.segs@.len() > 0
                &&& after.tx_stats.copied == 0 && after.tx_stats.retries == 0
                    && after.tx_stats.errors == 0 && after.tx_stats.accepted == 0
            },
{
    assert forall|shared: &mut DmeshIoHandle<W, K, S>, r: (Pumped, Option<K>)| #[trigger]
        call_ensures(DmeshIoHandle::<W, K, S>::pump, (shared, thread), r) implies {
        let publishes = shared.tx_buffered && shared.tx_error is None && !shared.tx_aborted;
        let after = *final(shared);
        &&& !publishes ==> !r.0.blocked && after.tx_buffered == shared.tx_buffered && after.tx_error
            == shared.tx_error && r.0.stats == shared.tx_stats
        &&& publishes && shared.owner != Some(thread) ==> !r.0.blocked && after.tx_error == Some(
            ErrorKind::Other,
        ) && after.tx_buffered
        &&& publishes && shared.owner == Some(thread) ==> exists|
            writer: &mut W,
            flushed: Result<Option<usize>, IoError>,
        |
            *writer == shared.writer->0 && #[trigger] call_ensures(W::flush, (writer,), flushed)
                && match flushed {
                Ok(Some(n)) => !r.0.blocked && !after.tx_buffered && after.tx_error is None
                    && r.0.stats.accepted == n && r.0.stats.publications == (if n > 0 {
                    1int
                } else {
                    0
                }),
                Ok(None) => r.0.blocked && after.tx_buffered && after.tx_error is None,
                Err(error) => !r.0.blocked && after.tx_buffered && after.tx_error == Some(
                    error.kind,
                ),
            }
        &&& !after.tx_buffered || after.tx_error is Some ==> r.1 == shared.tx_waker
            && after.tx_waker is None
        &&& after.tx_buffered && after.tx_error is None ==> r.1 is None && after.tx_waker
            == shared.tx_waker
        &&& r.0.state.tx_finished <==> shared.tx_closed && !after.tx_buffered
        &&& r.0.state.tx_aborted <==> shared.tx_aborted || after.tx_error is Some
        &&& r.0.state.has_rx <==> shared.rx@.len() > 0 || shared.segs@.len() > 0
        &&& after.tx_stats.copied == 0 && after.tx_stats.retries == 0 && after.tx_stats.errors == 0
            && after.tx_stats.accepted == 0
    } by {
        let (mid, flushed) = choose|
            mid: DmeshIoHandle<W, K, S>,
            flushed: Result<Option<usize>, IoError>,
        |
            #[trigger] pumped(*shared, mid, *final(shared), thread, flushed, r) && (
            shared.flushes() && shared.owner == Some(thread) ==> exists|writer: &mut W|
                *writer == shared.writer->0 && *final(writer) == final(shared).writer->0
                    && #[trigger] call_ensures(W::flush, (writer,), flushed));
        if shared.flushes() && shared.owner == Some(thread) {
            let writer = choose|writer: &mut W|
                *writer == shared.writer->0 && *final(writer) == final(shared).writer->0
                    && #[trigger] call_ensures(W::flush, (writer,), flushed);
            assert(call_ensures(W::flush, (writer,), flushed));
        }
    }
}

/// An abort closes both halves as a broken pipe, forgets every byte, segment and
/// writer, and wakes whoever waits; the writer drops its batch where the thread
/// is its own.
pub proof fn an_abort_leaves_nothing<W: TxWriter, K, S>(thread: u64)
    ensures
        forall|shared: &mut DmeshIoHandle<W, K, S>, r: (Option<K>, Option<K>)| #[trigger]
            call_ensures(DmeshIoHandle::<W, K, S>::abort, (shared, thread), r) ==> {
                let after = *final(shared);
                &&& after.rx@.len() == 0 && after.segs@.len() == 0 && after.seg_read_off == 0
                &&& after.staging_len == 0 && after.staging_base == 0
                &&& after.rx_closed && after.tx_closed && after.tx_aborted && after.failed
                &&& after.tx_error == Some(ErrorKind::BrokenPipe) && !after.tx_buffered
                &&& after.writer is None && after.owner is None && after.signal is None
                &&& r.0 == shared.rx_waker && r.1 == shared.tx_waker
                &&& after.rx_waker is None && after.tx_waker is None
                &&& shared.writer is Some && shared.owner == Some(thread) ==> exists|writer: &mut W|
                    *writer == shared.writer->0 && #[trigger] call_ensures(
                        W::cancel,
                        (writer,),
                        (),
                    )
            },
{
}

/// A writer is bound once, with the thread that binds it, to an endpoint that is
/// not closed, and wakes the write that waited; a later one, and one for a closed
/// endpoint, changes nothing. Where it is for the origin, so is the route.
pub proof fn a_writer_is_bound_once<W: TxWriter, K, S>(
    writer: W,
    signal: S,
    thread: u64,
    origin: bool,
)
    ensures
        forall|shared: &mut DmeshIoHandle<W, K, S>, wake: Option<K>| #[trigger]
            call_ensures(
                DmeshIoHandle::<W, K, S>::bind_writer,
                (shared, writer, signal, thread, origin),
                wake,
            ) ==> {
                let binds = !shared.tx_closed && shared.writer is None;
                &&& binds ==> {
                    &&& final(shared).writer == Some(writer)
                    &&& final(shared).owner == Some(thread)
                    &&& final(shared).signal == Some(signal)
                    &&& wake == shared.tx_waker && final(shared).tx_waker is None
                    &&& origin ==> final(shared).backend_route == BackendRoute::Origin
                    &&& !origin ==> final(shared).backend_route == shared.backend_route
                }
                &&& !binds ==> wake is None && *final(shared) == *shared
            },
{
}

/// A signal that is raised is heard once, and wakes the driver that waits once,
/// however often it is raised before it is heard.
pub proof fn a_signal_is_heard_once<K>(waker: K)
    ensures
        forall|signal: &mut DriverSignal<K>, wake: Option<K>| #[trigger]
            call_ensures(DriverSignal::<K>::raise, (signal,), wake) ==> {
                &&& final(signal).raised
                &&& signal.raised ==> wake is None && final(signal).waker == signal.waker
                &&& !signal.raised ==> wake == signal.waker && final(signal).waker is None
            },
        forall|signal: &mut DriverSignal<K>, r: Poll<()>| #[trigger]
            call_ensures(DriverSignal::<K>::poll, (signal, waker), r) ==> {
                &&& signal.raised ==> r is Ready && final(signal).waker == signal.waker
                &&& !signal.raised ==> r is Pending && final(signal).waker == Some(waker)
                &&& !final(signal).raised
            },
        forall|raised: &mut DriverSignal<K>, signal: &mut DriverSignal<K>, wake: Option<K>, r: Poll<
            (),
        >|
            #![trigger
                call_ensures(DriverSignal::<K>::raise, (raised,), wake),
                call_ensures(DriverSignal::<K>::poll, (signal, waker), r),
            ]
            call_ensures(DriverSignal::<K>::raise, (raised,), wake) && *signal == *final(raised)
                && call_ensures(DriverSignal::<K>::poll, (signal, waker), r) ==> r is Ready,
{
}

/// What is offered is the bytes of the buffers, one behind the other, and counts
/// as many as a length can say.
pub proof fn an_offer_is_all_of_its_buffers(bufs: &[&[u8]], more: &[u8], r: usize)
    requires
        call_ensures(offered_len, (bufs,), r),
    ensures
        gathered(bufs@).len() <= usize::MAX ==> r == gathered(bufs@).len(),
        gathered(bufs@).len() > usize::MAX ==> r == usize::MAX,
        gathered(bufs@.push(more)) == gathered(bufs@) + more@,
        gathered(Seq::empty()) == Seq::<u8>::empty(),
{
    gathered_len(bufs@);
    assert(bufs@.push(more).drop_last() =~= bufs@);
}

/// A new endpoint has nothing to read and nothing bound, is open both ways, and
/// is its flow's; a route that is set is the route that it has.
pub proof fn an_endpoint_begins_open<W, K, S>(
    peer: SocketAddr,
    session: Option<SessionToken>,
    route: BackendRoute,
)
    ensures
        forall|r: (DmeshIo, DmeshIoHandle<W, K, S>)| #[trigger]
            call_ensures(dmesh_io_pair::<W, K, S>, (peer, session), r) ==> {
                &&& r.0.peer == peer && r.0.session == session
                &&& r.1.rx@.len() == 0 && r.1.segs@.len() == 0
                &&& r.1.writer is None && r.1.owner is None && r.1.signal is None
                &&& !r.1.rx_closed && !r.1.tx_closed && !r.1.tx_aborted && !r.1.tx_buffered
                &&& r.1.tx_error is None && !r.1.failed && !r.1.dirty
                &&& r.1.backend_route == BackendRoute::Any
            },
        forall|io: DmeshIo, shared: &mut DmeshIoHandle<W, K, S>| #[trigger]
            call_ensures(DmeshIo::set_backend_route::<W, K, S>, (&io, shared, route), ())
                ==> final(shared).backend_route == route && final(shared).rx == shared.rx
                && final(shared).tx_closed == shared.tx_closed,
        forall|shared: DmeshIoHandle<W, K, S>, r: BackendRoute| #[trigger]
            call_ensures(DmeshIoHandle::<W, K, S>::backend_route, (&shared,), r) ==> r
                == shared.backend_route,
{
}

/// A read without room takes nothing and does not wait.
pub proof fn a_read_without_room_is_done<W, K, S>(io: DmeshIo, staging: &[u8], waker: K)
    ensures
        forall|shared: &mut DmeshIoHandle<W, K, S>, buf: &mut Vec<u8>, r: Poll<()>| #[trigger]
            call_ensures(
                DmeshIo::poll_read::<W, K, S>,
                (&io, shared, staging, buf, 0usize, waker),
                r,
            ) ==> r is Ready && final(buf)@ == buf@ && *final(shared) == *shared,
{
}

/// An endpoint reports its own peer and session, shows no byte ahead of a read,
/// and reads from the staging region that it was pointed at.
pub proof fn an_endpoint_reports_itself<W, K, S>(io: DmeshIo, base_addr: usize, len: usize, waker: K)
    ensures
        forall|r: SocketAddr| #[trigger]
            call_ensures(DmeshIo::peer_addr, (&io,), r) ==> r == io.peer,
        forall|r: Option<SessionToken>| #[trigger]
            call_ensures(DmeshIo::dmesh_session, (&io,), r) ==> r == io.session,
        forall|r: usize| #[trigger] call_ensures(DmeshIo::peek, (&io,), r) ==> r == 0,
        forall|shared: &mut DmeshIoHandle<W, K, S>| #[trigger]
            call_ensures(DmeshIoHandle::<W, K, S>::set_staging, (shared, base_addr, len), ())
                ==> final(shared).staging_base == base_addr && final(shared).staging_len == len
                && final(shared).segs == shared.segs && final(shared).rx == shared.rx,
        forall|slot: &mut Option<K>| #[trigger]
            call_ensures(park::<K>, (slot, waker), ()) ==> *final(slot) == Some(waker),
        forall|r: DriverSignal<K>| #[trigger]
            call_ensures(DriverSignal::<K>::new, (), r) ==> !r.raised && r.waker is None,
        forall|kind: ErrorKind, text: &str, r: IoError| #[trigger]
            call_ensures(IoError::new, (kind, text), r) ==> r.kind == kind && r.message@ == text@,
{
}

/// Any backend will do until one is chosen, a copy of a choice is the same
/// choice, and nothing is counted to begin with.
pub proof fn any_backend_will_do_by_default(route: BackendRoute)
    ensures
        forall|r: BackendRoute| #[trigger]
            call_ensures(BackendRoute::default, (), r) ==> r == BackendRoute::Any,
        forall|r: BackendRoute| #[trigger]
            call_ensures(BackendRoute::clone, (&route,), r) ==> r == route,
        forall|r: TxStats| #[trigger]
            call_ensures(TxStats::default, (), r) ==> r.accepted == 0 && r.publications == 0
                && r.copied == 0 && r.retries == 0 && r.errors == 0,
{
}

} // verus!
