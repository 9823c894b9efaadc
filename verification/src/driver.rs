//! What the driver of one datapath worker decides.
//!
//! The worker has a fixed number of connection slots. After every step of the
//! shared control state machine the driver compares each slot's state with the
//! one it saw last and tells the acceptor what became of the connection.
use vstd::prelude::*;

use std::collections::VecDeque;

use crate::fifo::{moves, Moved};
use crate::net::SocketAddrV4;
use crate::session::{FlowId, MAX_CONNS};
use crate::split::{first_index, first_index_is};
use crate::text::utf8;

verus! {

/// Data-path events drained per pass: it bounds each wakeup, so that the
/// control path cannot starve.
pub const DATA_DRAIN_BUDGET: i32 = 8192;

/// Bytes taken from an endpoint per send.
pub const TX_CHUNK: usize = 65536;

/// The control state machine has failed.
pub const STATE_ERROR: i32 = -1;

/// The shared infrastructure is up.
pub const STATE_RUNNING: i32 = 1;

/// The state of a connection slot.
#[derive(Clone, Copy, Debug, PartialEq, Eq, Structural)]
pub enum ConnState {
    Free,
    New,
    ConsumerStarting,
    AwaitMetadata,
    Running,
    Error,
}

impl ConnState {
    pub open spec fn spec_from_raw(v: i32) -> ConnState {
        if v == 1 {
            ConnState::New
        } else if v == 2 {
            ConnState::AwaitMetadata
        } else if v == 3 {
            ConnState::Running
        } else if v == 4 {
            ConnState::Error
        } else if v == 5 {
            ConnState::ConsumerStarting
        } else {
            ConnState::Free
        }
    }

    /// The state that the datapath's number stands for. A number that stands
    /// for none is a free slot.
    pub fn from_raw(v: i32) -> (r: ConnState)
        ensures
            r == ConnState::spec_from_raw(v),
    {
        match v {
            1 => ConnState::New,
            2 => ConnState::AwaitMetadata,
            3 => ConnState::Running,
            4 => ConnState::Error,
            5 => ConnState::ConsumerStarting,
            _ => ConnState::Free,
        }
    }
}

/// What the acceptor is told of a slot.
#[derive(Clone, Copy, Debug, PartialEq, Eq, Structural)]
pub enum Notice {
    /// The connection is set up.
    Ready,
    /// Its setup failed, and the slot is parked.
    Failed,
    /// The host disconnected.
    Closed,
}

/// What a slot's new state calls for.
#[derive(Clone, Copy, Debug, PartialEq, Eq)]
pub struct Transition {
    pub notice: Option<Notice>,
    /// The reader of the slot's endpoint is to see the end, and the endpoint
    /// is let go.
    pub teardown: bool,
}

/// What a slot's change of state calls for. The states of a setup in progress
/// are nobody's concern.
pub open spec fn transition(before: ConnState, now: ConnState) -> Transition {
    if now == before {
        Transition { notice: None, teardown: false }
    } else {
        Transition {
            notice: match now {
                ConnState::Running => Some(Notice::Ready),
                ConnState::Error => Some(Notice::Failed),
                ConnState::Free => Some(Notice::Closed),
                _ => None,
            },
            teardown: now == ConnState::Free || now == ConnState::Error,
        }
    }
}

/// The states that were seen last, by slot.
#[derive(Debug)]
pub struct SlotStates {
    pub states: Vec<ConnState>,
}

impl SlotStates {
    pub open spec fn wf(self) -> bool {
        self.states@.len() == MAX_CONNS
    }

    /// Every slot is free.
    pub fn new() -> (r: Self)
        ensures
            r.wf(),
            forall|i: int| 0 <= i < MAX_CONNS ==> r.states@[i] == ConnState::Free,
    {
        let mut states: Vec<ConnState> = Vec::new();
        while states.len() < MAX_CONNS
            invariant
                states@.len() <= MAX_CONNS,
                forall|i: int| 0 <= i < states@.len() ==> states@[i] == ConnState::Free,
            decreases MAX_CONNS - states@.len(),
        {
            states.push(ConnState::Free);
        }
        SlotStates { states }
    }

    /// The datapath reports `raw` for a slot.
    pub fn observe(&mut self, slot: usize, raw: i32) -> (r: Transition)
        requires
            old(self).wf(),
            slot < MAX_CONNS,
        ensures
            final(self).wf(),
            final(self).states@ == old(self).states@.update(
                slot as int,
                ConnState::spec_from_raw(raw),
            ),
            r == transition(old(self).states@[slot as int], ConnState::spec_from_raw(raw)),
    {
        let now: ConnState = ConnState::from_raw(raw);
        let before: ConnState = self.states[slot];
        self.states.set(slot, now);
        if now == before {
            return Transition { notice: None, teardown: false };
        }
        Transition {
            notice: match now {
                ConnState::Running => Some(Notice::Ready),
                ConnState::Error => Some(Notice::Failed),
                ConnState::Free => Some(Notice::Closed),
                _ => None,
            },
            teardown: now == ConnState::Free || now == ConnState::Error,
        }
    }
}

/// The worker's connections: what was seen of every slot, and the endpoint that
/// is bound to it. `H` is the driver's end of an endpoint.
#[derive(Debug)]
pub struct Connections<H> {
    pub seen: SlotStates,
    pub handles: Vec<Option<H>>,
}

impl<H> Connections<H> {
    pub open spec fn wf(self) -> bool {
        self.seen.wf() && self.handles@.len() == MAX_CONNS
    }

    /// Every slot is free.
    pub fn new() -> (r: Self)
        ensures
            r.wf(),
            forall|i: int| 0 <= i < MAX_CONNS ==> r.seen.states@[i] == ConnState::Free,
            forall|i: int| 0 <= i < MAX_CONNS ==> (#[trigger] r.handles@[i]) is None,
    {
        let mut handles: Vec<Option<H>> = Vec::new();
        while handles.len() < MAX_CONNS
            invariant
                handles@.len() <= MAX_CONNS,
                forall|i: int| 0 <= i < handles@.len() ==> (#[trigger] handles@[i]) is None,
            decreases MAX_CONNS - handles@.len(),
        {
            handles.push(None);
        }
        Connections { seen: SlotStates::new(), handles }
    }

    /// Bind an endpoint to a slot, in place of the one that was bound. An
    /// endpoint for a slot that the worker does not have is handed back.
    pub fn bind(&mut self, slot: usize, handle: H) -> (r: Option<H>)
        requires
            old(self).wf(),
        ensures
            final(self).wf(),
            final(self).seen == old(self).seen,
            if slot < MAX_CONNS {
                r == old(self).handles@[slot as int] && final(self).handles@ == old(
                    self,
                ).handles@.update(slot as int, Some(handle))
            } else {
                r == Some(handle) && final(self).handles@ == old(self).handles@
            },
    {
        if slot >= MAX_CONNS {
            return Some(handle);
        }
        let was = self.handles.remove(slot);
        self.handles.insert(slot, Some(handle));
        assert(self.handles@ =~= old(self).handles@.update(slot as int, Some(handle)));
        was
    }

    /// The datapath reports `raw` for a slot: what the acceptor is told, and
    /// the endpoint whose reader is to see the end.
    pub fn observe(&mut self, slot: usize, raw: i32) -> (r: (Option<Notice>, Option<H>))
        requires
            old(self).wf(),
            slot < MAX_CONNS,
        ensures
            final(self).wf(),
            final(self).seen.states@ == old(self).seen.states@.update(
                slot as int,
                ConnState::spec_from_raw(raw),
            ),
            ({
                let change = transition(
                    old(self).seen.states@[slot as int],
                    ConnState::spec_from_raw(raw),
                );
                &&& r.0 == change.notice
                &&& if change.teardown {
                    r.1 == old(self).handles@[slot as int] && final(self).handles@ == old(
                        self,
                    ).handles@.update(slot as int, None)
                } else {
                    r.1 is None && final(self).handles@ == old(self).handles@
                }
            }),
    {
        let change = self.seen.observe(slot, raw);
        if !change.teardown {
            return (change.notice, None);
        }
        let was = self.handles.remove(slot);
        self.handles.insert(slot, None);
        assert(self.handles@ =~= old(self).handles@.update(slot as int, None));
        (change.notice, was)
    }
}

/// A slot that stays as it is says nothing: nobody hears twice of one close,
/// one failure or one start.
pub proof fn an_unchanged_slot_is_silent(state: ConnState)
    ensures
        transition(state, state) == (Transition { notice: None, teardown: false }),
{
}

/// An endpoint is let go exactly when the acceptor hears that its connection
/// failed or closed.
pub proof fn a_teardown_is_told(before: ConnState, now: ConnState)
    ensures
        transition(before, now).teardown <==> (transition(before, now).notice == Some(
            Notice::Failed,
        ) || transition(before, now).notice == Some(Notice::Closed)),
{
}

/// The address whose octets, first to last, stand in `raw` from the least
/// significant byte up.
pub open spec fn network_order(raw: u32) -> int {
    (raw % 256) * 0x100_0000 + (raw / 256) % 256 * 0x1_0000 + (raw / 0x1_0000) % 256 * 0x100 + raw
        / 0x100_0000
}

fn address(raw: u32) -> (r: u32)
    ensures
        r == network_order(raw),
{
    (raw % 256) * 0x100_0000 + (raw / 256) % 256 * 0x1_0000 + (raw / 0x1_0000) % 256 * 0x100 + raw
        / 0x100_0000
}

/// What `String::from_utf8_lossy` makes of bytes.
pub uninterp spec fn lossy_text(bytes: Seq<u8>) -> Seq<char>;

/// `String::from_utf8_lossy`: the text whose bytes these are. Where they are no
/// text, each invalid sequence is replaced; which, only the name says.
#[verifier::external_body]
fn text_lossy(bytes: &[u8]) -> (r: String)
    ensures
        r@ == lossy_text(bytes@),
        forall|text: Seq<char>| #[trigger] utf8(text) == bytes@ ==> r@ == text,
{
    String::from_utf8_lossy(bytes).into_owned()
}

/// The bytes before the first NUL.
pub open spec fn c_string(buffer: Seq<u8>) -> Seq<u8> {
    buffer.take(first_index(buffer, 0u8))
}

fn c_string_len(buffer: &[u8]) -> (r: usize)
    ensures
        r == first_index(buffer@, 0u8),
        r <= buffer@.len(),
{
    let mut i: usize = 0;
    while i < buffer.len() && buffer[i] != 0
        invariant
            i <= buffer@.len(),
            forall|j: int| 0 <= j < i ==> buffer@[j] != 0,
        decreases buffer@.len() - i,
    {
        i = i + 1;
    }
    proof {
        first_index_is(buffer@, 0u8, i as int);
    }
    i
}

/// The identity of a flow as the datapath reports it: addresses in network
/// order, and the workload's name in a buffer that a NUL ends.
pub fn conn_flow(
    src_ip: u32,
    src_port: u16,
    dst_ip: u32,
    dst_port: u16,
    workload: &[u8],
    is_backend: bool,
) -> (r: FlowId)
    ensures
        r.src.ip == network_order(src_ip),
        r.src.port == src_port,
        r.dst.ip == network_order(dst_ip),
        r.dst.port == dst_port,
        r.workload@ == lossy_text(c_string(workload@)),
        forall|text: Seq<char>| #[trigger]
            utf8(text) == c_string(workload@) ==> r.workload@ == text,
        r.is_backend == is_backend,
{
    let len: usize = c_string_len(workload);
    let name: &[u8] = vstd::slice::slice_subrange(workload, 0, len);
    assert(name@ =~= c_string(workload@));
    FlowId {
        src: SocketAddrV4 { ip: address(src_ip), port: src_port },
        dst: SocketAddrV4 { ip: address(dst_ip), port: dst_port },
        workload: text_lossy(name),
        is_backend,
    }
}

/// The datapath's counters.
#[derive(Clone, Copy, Debug, PartialEq, Eq, Structural)]
pub struct Counters {
    pub sent: i64,
    pub recv: i64,
    pub recv_bytes: i64,
    pub dma_pending: i64,
    pub dma_dropped: i64,
}

impl Counters {
    /// Counts only grow.
    pub open spec fn follows(self, before: Counters) -> bool {
        &&& 0 <= before.sent <= self.sent
        &&& 0 <= before.recv <= self.recv
        &&& 0 <= before.recv_bytes <= self.recv_bytes
    }
}

/// What flowed in a period.
#[derive(Clone, Copy, Debug, PartialEq, Eq)]
pub struct FlowReport {
    pub elapsed_ms: u64,
    pub recv_msgs: i64,
    pub recv_bytes: i64,
    pub sent_msgs: i64,
    pub dma_pending: i64,
    pub dma_dropped: i64,
}

/// Whether the counters are to be looked at: once a second.
pub fn report_due(elapsed_ms: u64) -> (r: bool)
    ensures
        r == (elapsed_ms >= 1000),
{
    elapsed_ms >= 1000
}

/// What is reported of a period in which a message came or went, and the
/// counters that the next period starts from.
pub fn report(before: &mut Counters, now: Counters, elapsed_ms: u64) -> (r: Option<FlowReport>)
    requires
        now.follows(*old(before)),
    ensures
        *final(before) == now,
        r is Some <==> now.recv != old(before).recv || now.sent != old(before).sent,
        r matches Some(report) ==> {
            &&& report.elapsed_ms == elapsed_ms
            &&& report.recv_msgs == now.recv - old(before).recv
            &&& report.recv_bytes == now.recv_bytes - old(before).recv_bytes
            &&& report.sent_msgs == now.sent - old(before).sent
            &&& report.dma_pending == now.dma_pending
            &&& report.dma_dropped == now.dma_dropped
        },
{
    let r: Option<FlowReport> = if now.recv != before.recv || now.sent != before.sent {
        Some(
            FlowReport {
                elapsed_ms,
                recv_msgs: now.recv - before.recv,
                recv_bytes: now.recv_bytes - before.recv_bytes,
                sent_msgs: now.sent - before.sent,
                dma_pending: now.dma_pending,
                dma_dropped: now.dma_dropped,
            },
        )
    } else {
        None
    };
    *before = now;
    r
}

/// Reports of consecutive periods add up to what flowed over all of them.
pub proof fn reports_add_up(start: Counters, middle: Counters, end: Counters)
    requires
        middle.follows(start),
        end.follows(middle),
    ensures
        end.follows(start),
        (middle.recv - start.recv) + (end.recv - middle.recv) == end.recv - start.recv,
        (middle.recv_bytes - start.recv_bytes) + (end.recv_bytes - middle.recv_bytes)
            == end.recv_bytes - start.recv_bytes,
        (middle.sent - start.sent) + (end.sent - middle.sent) == end.sent - start.sent,
{
}

/// What became of bytes that were handed to the datapath.
#[derive(Clone, Copy, Debug, PartialEq, Eq)]
pub enum Sent {
    /// The reverse path is not ready: all of them go back, to be tried later.
    Blocked,
    /// The ring is full: those from here on go back, to be tried later.
    Partial(usize),
    /// All were taken; there may be more.
    All,
}

impl Sent {
    /// How many of `len` bytes the datapath has.
    pub open spec fn taken(self, len: nat) -> int {
        match self {
            Sent::Blocked => 0,
            Sent::Partial(n) => n as int,
            Sent::All => len as int,
        }
    }
}

/// What the datapath's answer to `len` bytes says: how many it took, or a
/// negative error.
pub open spec fn sent_of(code: i32, len: nat) -> Sent {
    if code < 0 {
        Sent::Blocked
    } else if code < len {
        Sent::Partial(code as usize)
    } else {
        Sent::All
    }
}

/// Read the datapath's answer to `len` bytes.
pub fn sent(code: i32, len: usize) -> (r: Sent)
    ensures
        r == sent_of(code, len as nat),
{
    if code < 0 {
        return Sent::Blocked;
    }
    let taken: u32 = code as u32;
    if (taken as u64) < (len as u64) {
        Sent::Partial(taken as usize)
    } else {
        Sent::All
    }
}

/// Bytes that the stack wrote and the datapath has not taken, in order.
#[derive(Debug)]
pub struct TxQueue {
    pub bytes: VecDeque<u8>,
}

impl TxQueue {
    pub fn new() -> (r: Self)
        ensures
            r.bytes@ == Seq::<u8>::empty(),
    {
        TxQueue { bytes: VecDeque::new() }
    }

    /// Queue what the stack wrote.
    pub fn push(&mut self, data: &[u8])
        ensures
            moves(old(self).bytes@, final(self).bytes@, Moved::In(data@)),
    {
        let mut i: usize = 0;
        assert(data@.take(0) =~= Seq::<u8>::empty());
        assert(self.bytes@ =~= old(self).bytes@ + data@.take(0));
        while i < data.len()
            invariant
                i <= data@.len(),
                self.bytes@ == old(self).bytes@ + data@.take(i as int),
            decreases data@.len() - i,
        {
            self.bytes.push_back(data[i]);
            assert(data@.take(i + 1) =~= data@.take(i as int).push(data@[i as int]));
            i = i + 1;
            assert(self.bytes@ =~= old(self).bytes@ + data@.take(i as int));
        }
        assert(data@.take(i as int) =~= data@);
    }

    /// Take the first `max` bytes, or all there are.
    pub fn take(&mut self, max: usize) -> (r: Vec<u8>)
        ensures
            r@.len() == if max < old(self).bytes@.len() {
                max as int
            } else {
                old(self).bytes@.len() as int
            },
            moves(old(self).bytes@, final(self).bytes@, Moved::Out(r@)),
    {
        let mut out: Vec<u8> = Vec::new();
        assert(out@ + self.bytes@ =~= old(self).bytes@);
        while out.len() < max && self.bytes.len() > 0
            invariant
                out@.len() <= max,
                out@ + self.bytes@ == old(self).bytes@,
            ensures
                out@.len() == max || self.bytes@.len() == 0,
            decreases self.bytes@.len(),
        {
            let ghost before = self.bytes@;
            let ghost taken = out@;
            match self.bytes.pop_front() {
                Some(byte) => {
                    out.push(byte);
                    assert(out@ + self.bytes@ =~= taken + before);
                },
                None => break,
            }
        }
        assert((out@ + self.bytes@).len() == out@.len() + self.bytes@.len());
        out
    }

    /// Put bytes back at the front, those from `from` on.
    fn untake(&mut self, chunk: &Vec<u8>, from: usize)
        requires
            from <= chunk@.len(),
        ensures
            final(self).bytes@ == chunk@.skip(from as int) + old(self).bytes@,
    {
        let mut i: usize = chunk.len();
        assert(chunk@.skip(i as int) + self.bytes@ =~= self.bytes@);
        while i > from
            invariant
                from <= i <= chunk@.len(),
                self.bytes@ == chunk@.skip(i as int) + old(self).bytes@,
            decreases i,
        {
            i = i - 1;
            self.bytes.push_front(chunk[i]);
            assert(self.bytes@ =~= chunk@.skip(i as int) + old(self).bytes@);
        }
    }

    /// The datapath answered `code` to `chunk`, which was taken off the queue:
    /// what it did not take goes back to the front.
    pub fn settle(&mut self, chunk: Vec<u8>, code: i32) -> (r: Sent)
        ensures
            r == sent_of(code, chunk@.len()),
            final(self).bytes@ == chunk@.skip(r.taken(chunk@.len())) + old(self).bytes@,
    {
        let r = sent(code, chunk.len());
        match r {
            Sent::Blocked => {
                self.untake(&chunk, 0);
            },
            Sent::Partial(n) => {
                self.untake(&chunk, n);
            },
            Sent::All => {
                assert(chunk@.skip(chunk@.len() as int) + self.bytes@ =~= self.bytes@);
            },
        }
        r
    }
}

/// Nothing is lost and nothing is sent twice: taking a chunk and settling it is
/// taking off the queue what the datapath has, and no more.
pub proof fn what_is_sent_leaves_the_queue(
    before: Seq<u8>,
    chunk: Seq<u8>,
    between: Seq<u8>,
    after: Seq<u8>,
    answer: Sent,
)
    requires
        moves(before, between, Moved::Out(chunk)),
        0 <= answer.taken(chunk.len()) <= chunk.len(),
        after == chunk.skip(answer.taken(chunk.len())) + between,
    ensures
        moves(before, after, Moved::Out(chunk.take(answer.taken(chunk.len())))),
{
    let n = answer.taken(chunk.len());
    assert(chunk =~= chunk.take(n) + chunk.skip(n));
    assert(chunk.take(n) + after =~= before);
}

/// How long the proxy takes from a segment's arrival to its answer, in
/// microseconds.
#[derive(Clone, Copy, Debug, PartialEq, Eq)]
pub struct LatencyProbe {
    /// When the segment arrived that no answer has followed yet.
    pub since: Option<u64>,
    pub sum: u64,
    pub count: u64,
}

impl LatencyProbe {
    pub fn new() -> (r: Self)
        ensures
            r.since is None,
            r.sum == 0,
            r.count == 0,
    {
        LatencyProbe { since: None, sum: 0, count: 0 }
    }

    /// A segment arrived: the first since the last answer starts the clock.
    pub fn arrived(&mut self, now: u64)
        ensures
            final(self).since == if old(self).since is None {
                Some(now)
            } else {
                old(self).since
            },
            final(self).sum == old(self).sum,
            final(self).count == old(self).count,
    {
        if self.since.is_none() {
            self.since = Some(now);
        }
    }

    /// `taken` bytes of an answer left. Every two hundredth gives the mean.
    pub fn left(&mut self, now: u64, taken: usize) -> (r: Option<u64>)
        requires
            old(self).since matches Some(since) ==> since <= now && old(self).sum + (now - since)
                <= u64::MAX,
            old(self).count < u64::MAX,
        ensures
            taken == 0 || old(self).since is None ==> *final(self) == *old(self) && r is None,
            taken > 0 && old(self).since is Some ==> {
                let sum = old(self).sum + (now - old(self).since->0);
                let count = old(self).count + 1;
                &&& final(self).since is None
                &&& final(self).sum == sum
                &&& final(self).count == count
                &&& r == if count % 200 == 0 {
                    Some((sum / count) as u64)
                } else {
                    None
                }
            },
    {
        if taken == 0 {
            return None;
        }
        match self.since {
            None => None,
            Some(since) => {
                self.since = None;
                self.sum = self.sum + (now - since);
                self.count = self.count + 1;
                if self.count % 200 == 0 {
                    Some(self.sum / self.count)
                } else {
                    None
                }
            },
        }
    }
}

/// What the driver asks of the datapath next.
#[derive(Clone, Copy, Debug, PartialEq, Eq)]
pub enum Step {
    /// Build the shared infrastructure.
    Start,
    /// Get the descriptor of the control path.
    CtrlFd,
    /// Get the descriptor of the data path.
    DataFd,
    ArmCtrl,
    ArmData,
    DrainCtrl,
    /// Drain the data path, within the budget.
    DrainData,
    /// Advance the control state machine. So many data-path events were drained.
    Advance(i32),
    /// Look at the slots, bind endpoints, and move bytes both ways.
    Pump(i32),
    /// Let others run, without sleeping.
    Yield,
    /// Sleep until a descriptor is ready, an endpoint was written, or the
    /// safety net's tick.
    Wait,
    /// Clear and drain the control path.
    ClearCtrl,
}

/// What came of a step.
#[derive(Clone, Copy, Debug, PartialEq, Eq)]
pub enum Outcome {
    /// The datapath's code, zero for success.
    Code(i32),
    /// The code, and the state of the control state machine.
    Advanced(i32, i32),
    /// The code, and how many events were drained.
    Drained(i32, i32),
    Done,
    /// What ended the sleep was the control descriptor.
    CtrlReadable,
    /// It was anything else.
    Woken,
}

/// Why the driver ends.
#[derive(Clone, Copy, Debug, PartialEq, Eq)]
pub enum DriverError {
    /// The datapath's code.
    Doca(i32),
    StateMachineFailed,
    NotRunning,
    /// An outcome that the step cannot have.
    Unexpected,
}

impl DriverError {
    /// What went wrong, where no code of the datapath says it.
    pub fn message(&self) -> (r: Option<&'static str>)
        ensures
            match *self {
                DriverError::StateMachineFailed => r matches Some(text) && text@
                    == "dmesh control state machine failed"@,
                DriverError::NotRunning => r matches Some(text) && text@
                    == "dmesh infrastructure did not reach RUNNING"@,
                _ => r is None,
            },
    {
        match self {
            DriverError::StateMachineFailed => Some("dmesh control state machine failed"),
            DriverError::NotRunning => Some("dmesh infrastructure did not reach RUNNING"),
            _ => None,
        }
    }
}

/// The step that follows one that only succeeds or fails.
pub open spec fn after_code(code: i32, then_step: Step) -> Result<Step, DriverError> {
    if code == 0 {
        Ok(then_step)
    } else {
        Err(DriverError::Doca(code))
    }
}

/// The step that follows. Each pass arms both descriptors before it drains
/// them, and sleeps only where the budget was not used up.
pub open spec fn following(step: Step, outcome: Outcome) -> Result<Step, DriverError> {
    match (step, outcome) {
        (Step::Start, Outcome::Advanced(code, state)) => if code != 0 {
            Err(DriverError::Doca(code))
        } else if state == STATE_ERROR {
            Err(DriverError::StateMachineFailed)
        } else if state != STATE_RUNNING {
            Err(DriverError::NotRunning)
        } else {
            Ok(Step::CtrlFd)
        },
        (Step::CtrlFd, Outcome::Code(code)) => after_code(code, Step::DataFd),
        (Step::DataFd, Outcome::Code(code)) => after_code(code, Step::ArmCtrl),
        (Step::ArmCtrl, Outcome::Code(code)) => after_code(code, Step::ArmData),
        (Step::ArmData, Outcome::Code(code)) => after_code(code, Step::DrainCtrl),
        (Step::DrainCtrl, Outcome::Code(code)) => after_code(code, Step::DrainData),
        (Step::DrainData, Outcome::Drained(code, drained)) => after_code(
            code,
            Step::Advance(drained),
        ),
        (Step::Advance(drained), Outcome::Advanced(code, state)) => if code != 0 {
            Err(DriverError::Doca(code))
        } else if state == STATE_ERROR {
            Err(DriverError::StateMachineFailed)
        } else {
            Ok(Step::Pump(drained))
        },
        (Step::Pump(drained), Outcome::Done) => if drained >= DATA_DRAIN_BUDGET {
            Ok(Step::Yield)
        } else {
            Ok(Step::Wait)
        },
        (Step::Yield, Outcome::Done) => Ok(Step::ArmCtrl),
        (Step::Wait, Outcome::CtrlReadable) => Ok(Step::ClearCtrl),
        (Step::Wait, Outcome::Woken) => Ok(Step::ArmCtrl),
        (Step::ClearCtrl, Outcome::Code(code)) => after_code(code, Step::ArmCtrl),
        _ => Err(DriverError::Unexpected),
    }
}

fn checked(code: i32, then_step: Step) -> (r: Result<Step, DriverError>)
    ensures
        r == after_code(code, then_step),
{
    if code == 0 {
        Ok(then_step)
    } else {
        Err(DriverError::Doca(code))
    }
}

/// The step that follows `step`, given what came of it.
pub fn next_step(step: Step, outcome: Outcome) -> (r: Result<Step, DriverError>)
    ensures
        r == following(step, outcome),
{
    match (step, outcome) {
        (Step::Start, Outcome::Advanced(code, state)) => {
            if code != 0 {
                Err(DriverError::Doca(code))
            } else if state == STATE_ERROR {
                Err(DriverError::StateMachineFailed)
            } else if state != STATE_RUNNING {
                Err(DriverError::NotRunning)
            } else {
                Ok(Step::CtrlFd)
            }
        },
        (Step::CtrlFd, Outcome::Code(code)) => checked(code, Step::DataFd),
        (Step::DataFd, Outcome::Code(code)) => checked(code, Step::ArmCtrl),
        (Step::ArmCtrl, Outcome::Code(code)) => checked(code, Step::ArmData),
        (Step::ArmData, Outcome::Code(code)) => checked(code, Step::DrainCtrl),
        (Step::DrainCtrl, Outcome::Code(code)) => checked(code, Step::DrainData),
        (Step::DrainData, Outcome::Drained(code, drained)) => checked(code, Step::Advance(drained)),
        (Step::Advance(drained), Outcome::Advanced(code, state)) => {
            if code != 0 {
                Err(DriverError::Doca(code))
            } else if state == STATE_ERROR {
                Err(DriverError::StateMachineFailed)
            } else {
                Ok(Step::Pump(drained))
            }
        },
        (Step::Pump(drained), Outcome::Done) => {
            if drained >= DATA_DRAIN_BUDGET {
                Ok(Step::Yield)
            } else {
                Ok(Step::Wait)
            }
        },
        (Step::Yield, Outcome::Done) => Ok(Step::ArmCtrl),
        (Step::Wait, Outcome::CtrlReadable) => Ok(Step::ClearCtrl),
        (Step::Wait, Outcome::Woken) => Ok(Step::ArmCtrl),
        (Step::ClearCtrl, Outcome::Code(code)) => checked(code, Step::ArmCtrl),
        _ => Err(DriverError::Unexpected),
    }
}

/// Outcomes of a pass from the arming of the control path to its end.
pub open spec fn pass(
    arm_ctrl: Outcome,
    arm_data: Outcome,
    drain_ctrl: Outcome,
    drain_data: Outcome,
    advance: Outcome,
) -> Result<Step, DriverError> {
    match following(Step::ArmCtrl, arm_ctrl) {
        Err(e) => Err(e),
        Ok(second) => match following(second, arm_data) {
            Err(e) => Err(e),
            Ok(third) => match following(third, drain_ctrl) {
                Err(e) => Err(e),
                Ok(fourth) => match following(fourth, drain_data) {
                    Err(e) => Err(e),
                    Ok(fifth) => match following(fifth, advance) {
                        Err(e) => Err(e),
                        Ok(sixth) => following(sixth, Outcome::Done),
                    },
                },
            },
        },
    }
}

/// A pass that no call failed in sleeps exactly where the budget was not used
/// up: work that is left is never slept on.
pub proof fn work_is_not_slept_on(drained: i32, state: i32)
    requires
        state != STATE_ERROR,
    ensures
        pass(
            Outcome::Code(0),
            Outcome::Code(0),
            Outcome::Code(0),
            Outcome::Drained(0, drained),
            Outcome::Advanced(0, state),
        ) == Ok::<Step, DriverError>(
            if drained >= DATA_DRAIN_BUDGET {
                Step::Yield
            } else {
                Step::Wait
            },
        ),
{
}

/// Only a pass's end leads to sleep, and whatever ends it, both descriptors are
/// armed again before anything else is drained but the control path.
pub proof fn a_sleep_ends_in_arming(step: Step, outcome: Outcome)
    ensures
        following(step, outcome) == Ok::<Step, DriverError>(Step::Wait) ==> step is Pump,
        step == Step::Wait && following(step, outcome) is Ok ==> following(step, outcome)
            == Ok::<Step, DriverError>(Step::ArmCtrl) || following(step, outcome) == Ok::<
            Step,
            DriverError,
        >(Step::ClearCtrl),
        step == Step::ClearCtrl && following(step, outcome) is Ok ==> following(step, outcome)
            == Ok::<Step, DriverError>(Step::ArmCtrl),
        step == Step::ArmCtrl && following(step, outcome) is Ok ==> following(step, outcome)
            == Ok::<Step, DriverError>(Step::ArmData),
{
}

/// The datapath's numbers from one to five stand for a connection that is new,
/// awaits its metadata, runs, has failed or starts its consumer; any other stands
/// for a free slot.
pub proof fn a_number_stands_for_a_state(v: i32, r: ConnState)
    requires
        call_ensures(ConnState::from_raw, (v,), r),
    ensures
        v == 1 ==> r == ConnState::New,
        v == 2 ==> r == ConnState::AwaitMetadata,
        v == 3 ==> r == ConnState::Running,
        v == 4 ==> r == ConnState::Error,
        v == 5 ==> r == ConnState::ConsumerStarting,
        v < 1 || v > 5 ==> r == ConnState::Free,
{
}

/// The acceptor hears that a connection is ready when its slot begins to run,
/// that it failed when the slot fails, and that it closed when the slot becomes
/// free; of a setup in progress, and of a slot that stays as it is, it hears
/// nothing. The endpoint of a slot that failed or became free is let go and
/// handed back, and no other slot's is touched.
pub proof fn a_slot_is_told_by_its_change<H>(slot: usize, raw: i32)
    ensures
        forall|conns: &mut Connections<H>, r: (Option<Notice>, Option<H>)| #[trigger]
            call_ensures(Connections::<H>::observe, (conns, slot, raw), r) && conns.wf() && slot < 8
                ==> {
                let before = conns.seen.states@[slot as int];
                let runs = raw == 3 && before != ConnState::Running;
                let fails = raw == 4 && before != ConnState::Error;
                let frees = (raw < 1 || raw > 5) && before != ConnState::Free;
                &&& r.0 == (if runs {
                    Some(Notice::Ready)
                } else if fails {
                    Some(Notice::Failed)
                } else if frees {
                    Some(Notice::Closed)
                } else {
                    None
                })
                &&& fails || frees ==> r.1 == conns.handles@[slot as int] && final(conns).handles@
                    == conns.handles@.update(slot as int, None)
                &&& !fails && !frees ==> r.1 is None && final(conns).handles@ == conns.handles@
                &&& forall|other: int|
                    0 <= other < conns.seen.states@.len() && other != slot ==> #[trigger] final(
                        conns).seen.states@[other] == conns.seen.states@[other]
            },
{
}

/// The same of the states alone: the endpoint is to be let go where the slot
/// failed or became free.
pub proof fn a_change_calls_for_its_notice(slot: usize, raw: i32)
    ensures
        forall|states: &mut SlotStates, r: Transition| #[trigger]
            call_ensures(SlotStates::observe, (states, slot, raw), r) ==> {
                let before = states.states@[slot as int];
                let runs = raw == 3 && before != ConnState::Running;
                let fails = raw == 4 && before != ConnState::Error;
                let frees = (raw < 1 || raw > 5) && before != ConnState::Free;
                &&& r.teardown <==> fails || frees
                &&& r.notice == Some(Notice::Ready) <==> runs
                &&& r.notice == Some(Notice::Failed) <==> fails
                &&& r.notice == Some(Notice::Closed) <==> frees
            },
        forall|
            first: &mut SlotStates,
            second: &mut SlotStates,
            a: Transition,
            b: Transition,
        |
            #![trigger
                call_ensures(SlotStates::observe, (first, slot, raw), a),
                call_ensures(SlotStates::observe, (second, slot, raw), b),
            ]
            call_ensures(SlotStates::observe, (first, slot, raw), a) && *second == *final(first)
                && call_ensures(SlotStates::observe, (second, slot, raw), b) && slot
                < first.states@.len() ==> b.notice is None && !b.teardown,
{
}

/// An endpoint is bound to one of the eight slots in place of the one that was
/// bound, which is handed back; an endpoint for another slot is handed back
/// itself.
pub proof fn an_endpoint_is_bound_to_its_slot<H>(slot: usize, handle: H)
    ensures
        forall|conns: &mut Connections<H>, r: Option<H>| #[trigger]
            call_ensures(Connections::<H>::bind, (conns, slot, handle), r) ==> {
                &&& slot < 8 ==> r == conns.handles@[slot as int] && final(conns).handles@
                    == conns.handles@.update(slot as int, Some(handle))
                &&& slot >= 8 ==> r == Some(handle) && final(conns).handles@ == conns.handles@
                &&& final(conns).seen == conns.seen
            },
{
}

/// The address that four octets make, first to last.
pub open spec fn of_octets(a: int, b: int, c: int, d: int) -> int {
    ((a * 256 + b) * 256 + c) * 256 + d
}

/// A flow's addresses are read with their octets turned round, so that the
/// octet that the datapath holds lowest is the first; its ports are as they are;
/// and its workload is the text up to the first NUL.
pub proof fn a_flow_is_read_as_reported(
    src: (int, int, int, int),
    src_ip: u32,
    src_port: u16,
    dst_ip: u32,
    dst_port: u16,
    workload: &[u8],
    is_backend: bool,
    name: Seq<char>,
    r: FlowId,
)
    requires
        call_ensures(conn_flow, (src_ip, src_port, dst_ip, dst_port, workload, is_backend), r),
        0 <= src.0 < 256 && 0 <= src.1 < 256 && 0 <= src.2 < 256 && 0 <= src.3 < 256,
    ensures
        src_ip == of_octets(src.3, src.2, src.1, src.0) ==> r.src.ip == of_octets(
            src.0,
            src.1,
            src.2,
            src.3,
        ),
        dst_ip == of_octets(src.3, src.2, src.1, src.0) ==> r.dst.ip == of_octets(
            src.0,
            src.1,
            src.2,
            src.3,
        ),
        r.src.port == src_port,
        r.dst.port == dst_port,
        r.is_backend == is_backend,
        forall|i: int|
            #![trigger workload@.take(i)]
            0 <= i <= workload@.len() && workload@.take(i) == utf8(name) && (i == workload@.len()
                || workload@[i] == 0) && (forall|k: int| 0 <= k < i ==> #[trigger] workload@[k] != 0)
                ==> r.workload@ == name,
{
    let (a, b, c, d) = src;
    let raw = of_octets(d, c, b, a);
    assert(raw % 256 == a && (raw / 256) % 256 == b && (raw / 0x1_0000) % 256 == c && raw
        / 0x100_0000 == d) by (nonlinear_arith)
        requires
            raw == ((d * 256 + c) * 256 + b) * 256 + a,
            0 <= a < 256,
            0 <= b < 256,
            0 <= c < 256,
            0 <= d < 256,
    ;
    assert forall|i: int|
        #![trigger workload@.take(i)]
        0 <= i <= workload@.len() && workload@.take(i) == utf8(name) && (i == workload@.len()
            || workload@[i] == 0) && (forall|k: int|
            0 <= k < i ==> #[trigger] workload@[k] != 0) implies r.workload@ == name by {
        first_index_is(workload@, 0u8, i);
        assert(utf8(name) == c_string(workload@));
    }
}

/// The counters are looked at once a second. A period in which a message came or
/// went is reported with what flowed in it; another is not; and the next period
/// starts where this one ended.
pub proof fn a_period_is_reported_by_what_flowed(now: Counters, elapsed_ms: u64)
    ensures
        forall|before: &mut Counters, r: Option<FlowReport>| #[trigger]
            call_ensures(report, (before, now, elapsed_ms), r) ==> {
                &&& r is None <==> now.recv == before.recv && now.sent == before.sent
                &&& r is Some ==> {
                    &&& before.recv + r->0.recv_msgs == now.recv
                    &&& before.recv_bytes + r->0.recv_bytes == now.recv_bytes
                    &&& before.sent + r->0.sent_msgs == now.sent
                    &&& r->0.dma_pending == now.dma_pending && r->0.dma_dropped == now.dma_dropped
                    &&& r->0.elapsed_ms == elapsed_ms
                }
                &&& *final(before) == now
            },
        forall|r: bool| #[trigger]
            call_ensures(report_due, (elapsed_ms,), r) ==> (r <==> elapsed_ms >= 1000),
{
}

/// A negative answer of the datapath took nothing, one below what was offered
/// took so many, and any other took all.
pub proof fn an_answer_says_what_was_taken(code: i32, len: usize, r: Sent)
    requires
        call_ensures(sent, (code, len), r),
    ensures
        code < 0 ==> r == Sent::Blocked,
        0 <= code < len ==> r == Sent::Partial(code as usize),
        code >= 0 && code >= len ==> r == Sent::All,
{
}

/// What the datapath did not take is back at the front of the queue, in order:
/// all of the chunk where it took nothing, and nothing where it took all.
pub proof fn what_is_not_taken_goes_back(chunk: Vec<u8>, code: i32)
    ensures
        forall|queue: &mut TxQueue, r: Sent| #[trigger]
            call_ensures(TxQueue::settle, (queue, chunk, code), r) ==> {
                &&& code < 0 ==> r == Sent::Blocked && final(queue).bytes@ == chunk@ + queue.bytes@
                &&& 0 <= code < chunk@.len() ==> r == Sent::Partial(code as usize) && final(
                    queue).bytes@ == chunk@.skip(code as int) + queue.bytes@
                &&& code >= 0 && code >= chunk@.len() ==> r == Sent::All && final(queue).bytes@
                    == queue.bytes@
            },
{
    assert forall|queue: &mut TxQueue, r: Sent| #[trigger]
        call_ensures(TxQueue::settle, (queue, chunk, code), r) implies {
        &&& code < 0 ==> final(queue).bytes@ == chunk@ + queue.bytes@
        &&& code >= 0 && code >= chunk@.len() ==> final(queue).bytes@ == queue.bytes@
    } by {
        assert(chunk@.skip(0) =~= chunk@);
        assert(chunk@.skip(chunk@.len() as int) + queue.bytes@ =~= queue.bytes@);
    }
}

/// Bytes are queued at the end and taken off the front, as many as are asked for
/// or all there are.
pub proof fn a_queue_is_taken_from_the_front(data: &[u8], max: usize)
    ensures
        forall|queue: &mut TxQueue| #[trigger]
            call_ensures(TxQueue::push, (queue, data), ()) ==> final(queue).bytes@ == queue.bytes@
                + data@,
        forall|queue: &mut TxQueue, r: Vec<u8>| #[trigger]
            call_ensures(TxQueue::take, (queue, max), r) ==> {
                let n = if max < queue.bytes@.len() {
                    max as int
                } else {
                    queue.bytes@.len() as int
                };
                r@ == queue.bytes@.take(n) && final(queue).bytes@ == queue.bytes@.skip(n)
            },
{
    assert forall|queue: &mut TxQueue, r: Vec<u8>| #[trigger]
        call_ensures(TxQueue::take, (queue, max), r) implies {
        let n = if max < queue.bytes@.len() {
            max as int
        } else {
            queue.bytes@.len() as int
        };
        r@ == queue.bytes@.take(n) && final(queue).bytes@ == queue.bytes@.skip(n)
    } by {
        let all = r@ + final(queue).bytes@;
        assert(queue.bytes@ == all);
        assert(r@ =~= all.take(r@.len() as int));
        assert(final(queue).bytes@ =~= all.skip(r@.len() as int));
    }
}

/// The clock runs from the first segment that no answer has followed, and an
/// answer of some bytes stops it; every two hundredth answer gives the mean time
/// of all of them, rounded down.
pub proof fn answers_are_timed_from_the_first_segment(now: u64, taken: usize)
    ensures
        forall|probe: &mut LatencyProbe| #[trigger]
            call_ensures(LatencyProbe::arrived, (probe, now), ()) ==> {
                &&& probe.since is None ==> final(probe).since == Some(now)
                &&& probe.since is Some ==> final(probe).since == probe.since
                &&& final(probe).sum == probe.sum && final(probe).count == probe.count
            },
        forall|probe: &mut LatencyProbe, r: Option<u64>| #[trigger]
            call_ensures(LatencyProbe::left, (probe, now, taken), r) ==> {
                let answers = taken > 0 && probe.since is Some;
                &&& !answers ==> r is None && *final(probe) == *probe
                &&& answers ==> {
                    &&& final(probe).since is None
                    &&& final(probe).sum == probe.sum + (now - probe.since->0)
                    &&& final(probe).count == probe.count + 1
                    &&& r is Some <==> final(probe).count % 200 == 0
                    &&& r is Some ==> r->0 == final(probe).sum as int / final(probe).count as int
                }
            },
{
}

/// Setting up builds the infrastructure and gets both descriptors; a pass arms
/// both, drains both, advances the state machine and pumps, in this order. It
/// sleeps exactly where fewer than 8192 events were drained, and yields where
/// not; then it arms again, behind clearing the control path where that woke it.
/// A call that fails ends the driver with its code, a state machine that failed
/// ends it, and so does infrastructure that is not running at first.
pub proof fn a_driver_keeps_its_order(step: Step, outcome: Outcome, r: Result<Step, DriverError>)
    requires
        call_ensures(next_step, (step, outcome), r),
    ensures
        match (step, outcome) {
            (Step::Start, Outcome::Advanced(code, state)) => r == if code != 0 {
                Err::<Step, DriverError>(DriverError::Doca(code))
            } else if state == -1 {
                Err::<Step, DriverError>(DriverError::StateMachineFailed)
            } else if state == 1 {
                Ok::<Step, DriverError>(Step::CtrlFd)
            } else {
                Err::<Step, DriverError>(DriverError::NotRunning)
            },
            (Step::Advance(drained), Outcome::Advanced(code, state)) => r == if code != 0 {
                Err::<Step, DriverError>(DriverError::Doca(code))
            } else if state == -1 {
                Err::<Step, DriverError>(DriverError::StateMachineFailed)
            } else {
                Ok::<Step, DriverError>(Step::Pump(drained))
            },
            (Step::DrainData, Outcome::Drained(code, drained)) => r == if code != 0 {
                Err::<Step, DriverError>(DriverError::Doca(code))
            } else {
                Ok::<Step, DriverError>(Step::Advance(drained))
            },
            (Step::Pump(drained), Outcome::Done) => r == Ok::<Step, DriverError>(
                if drained < 8192 {
                    Step::Wait
                } else {
                    Step::Yield
                },
            ),
            (Step::Yield, Outcome::Done) => r == Ok::<Step, DriverError>(Step::ArmCtrl),
            (Step::Wait, Outcome::CtrlReadable) => r == Ok::<Step, DriverError>(Step::ClearCtrl),
            (Step::Wait, Outcome::Woken) => r == Ok::<Step, DriverError>(Step::ArmCtrl),
            (_, Outcome::Code(code)) => {
                let succeeds = step == Step::CtrlFd || step == Step::DataFd || step
                    == Step::ArmCtrl || step == Step::ArmData || step == Step::DrainCtrl || step
                    == Step::ClearCtrl;
                &&& succeeds && code != 0 ==> r == Err::<Step, DriverError>(DriverError::Doca(code))
                &&& step == Step::CtrlFd && code == 0 ==> r == Ok::<Step, DriverError>(Step::DataFd)
                &&& step == Step::DataFd && code == 0 ==> r == Ok::<Step, DriverError>(
                    Step::ArmCtrl,
                )
                &&& step == Step::ArmCtrl && code == 0 ==> r == Ok::<Step, DriverError>(
                    Step::ArmData,
                )
                &&& step == Step::ArmData && code == 0 ==> r == Ok::<Step, DriverError>(
                    Step::DrainCtrl,
                )
                &&& step == Step::DrainCtrl && code == 0 ==> r == Ok::<Step, DriverError>(
                    Step::DrainData,
                )
                &&& step == Step::ClearCtrl && code == 0 ==> r == Ok::<Step, DriverError>(
                    Step::ArmCtrl,
                )
                &&& !succeeds ==> r == Err::<Step, DriverError>(DriverError::Unexpected)
            },
            _ => r == Err::<Step, DriverError>(DriverError::Unexpected),
        },
{
}

/// Only what no code of the datapath says has a text of its own.
pub proof fn a_driver_error_has_its_text(error: DriverError, r: Option<&'static str>)
    requires
        call_ensures(DriverError::message, (&error,), r),
    ensures
        r is Some <==> error == DriverError::StateMachineFailed || error == DriverError::NotRunning,
        error == DriverError::StateMachineFailed ==> r->0@ == "dmesh control state machine failed"@,
        error == DriverError::NotRunning ==> r->0@
            == "dmesh infrastructure did not reach RUNNING"@,
{
}

/// Every one of the eight slots is free and unbound to begin with, no byte is
/// queued, and no answer is timed.
pub proof fn a_worker_begins_idle<H>()
    ensures
        forall|r: SlotStates| #[trigger]
            call_ensures(SlotStates::new, (), r) ==> r.states@.len() == 8 && forall|i: int|
                0 <= i < 8 ==> #[trigger] r.states@[i] == ConnState::Free,
        forall|r: Connections<H>| #[trigger]
            call_ensures(Connections::<H>::new, (), r) ==> r.handles@.len() == 8 && (forall|i: int|
                0 <= i < 8 ==> (#[trigger] r.handles@[i]) is None) && forall|i: int|
                0 <= i < 8 ==> #[trigger] r.seen.states@[i] == ConnState::Free,
        forall|r: TxQueue| #[trigger] call_ensures(TxQueue::new, (), r) ==> r.bytes@.len() == 0,
        forall|r: LatencyProbe| #[trigger]
            call_ensures(LatencyProbe::new, (), r) ==> r.since is None && r.sum == 0 && r.count == 0,
{
}

/// What was seen of a slot last is the state that its number stands for.
pub proof fn a_slot_is_remembered_by_its_number(slot: usize, raw: i32, state: ConnState)
    requires
        slot < 8,
        call_ensures(ConnState::from_raw, (raw,), state),
    ensures
        forall|states: &mut SlotStates, r: Transition| #[trigger]
            call_ensures(SlotStates::observe, (states, slot, raw), r) && states.states@.len() == 8
                ==> final(states).states@ == states.states@.update(slot as int, state),
{
}

/// The same of the connections.
pub proof fn a_connection_is_remembered_by_its_number<H>(slot: usize, raw: i32, state: ConnState)
    requires
        slot < 8,
        call_ensures(ConnState::from_raw, (raw,), state),
    ensures
        forall|conns: &mut Connections<H>, r: (Option<Notice>, Option<H>)| #[trigger]
            call_ensures(Connections::<H>::observe, (conns, slot, raw), r)
                ==> final(conns).seen.states@ == conns.seen.states@.update(slot as int, state),
{
}

} // verus!
