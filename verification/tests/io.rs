use dmesh::io::{
    dmesh_io_pair, offered_len, BackendRoute, DmeshIo, DmeshIoHandle, DriverSignal, ErrorKind,
    IoError, Poll, Pumped, TxAttempt, TxWriter,
};
use dmesh::net::{SocketAddr, SocketAddrV4};
use dmesh::session::SessionToken;
use std::cell::RefCell;
use std::rc::Rc;

const THREAD: u64 = 1;

/// A writer that copies into one bounded batch the driver publishes.
#[derive(Default, Debug)]
struct Batch {
    batch: Vec<u8>,
    published: Vec<Vec<u8>>,
    cap: usize,
    refuse_flush: bool,
    fail_flush: bool,
    dry: bool,
    calls: usize,
    routes: Vec<BackendRoute>,
}

struct Batching(Rc<RefCell<Batch>>);

impl TxWriter for Batching {
    fn write(&mut self, route: &BackendRoute, bufs: &[&[u8]]) -> TxAttempt {
        let mut state = self.0.borrow_mut();
        state.calls += 1;
        state.routes.push(route.clone());
        if state.dry {
            return TxAttempt::Retry;
        }
        let mut room = state.cap - state.batch.len();
        let mut copied = 0;
        for b in bufs {
            let n = room.min(b.len());
            state.batch.extend_from_slice(&b[..n]);
            copied += n;
            room -= n;
        }
        if copied == 0 {
            TxAttempt::Retry
        } else {
            TxAttempt::Buffered(copied)
        }
    }

    fn flush(&mut self) -> Result<Option<usize>, IoError> {
        let mut state = self.0.borrow_mut();
        if state.fail_flush {
            return Err(IoError::new(ErrorKind::ConnectionReset, "gone"));
        }
        if state.refuse_flush {
            return Ok(None);
        }
        let batch = std::mem::take(&mut state.batch);
        let n = batch.len();
        state.published.push(batch);
        Ok(Some(n))
    }

    fn cancel(&mut self) {
        self.0.borrow_mut().batch.clear();
    }
}

struct Pair {
    io: DmeshIo,
    handle: DmeshIoHandle<Batching, u32, ()>,
    signal: DriverSignal<u32>,
    staging: Vec<u8>,
}

fn peer() -> SocketAddr {
    SocketAddr::V4(SocketAddrV4 { ip: 0x7f00_0001, port: 40000 })
}

fn pair() -> Pair {
    let (io, handle) = dmesh_io_pair(peer(), None);
    Pair { io, handle, signal: DriverSignal::new(), staging: Vec::new() }
}

impl Pair {
    fn bind(&mut self, cap: usize) -> Rc<RefCell<Batch>> {
        let state = Rc::new(RefCell::new(Batch { cap, ..Batch::default() }));
        self.handle.bind_writer(Batching(state.clone()), (), THREAD, false);
        state
    }

    fn write(&mut self, data: &[u8]) -> Poll<Result<usize, IoError>> {
        self.write_from(data, THREAD)
    }

    fn write_from(&mut self, data: &[u8], thread: u64) -> Poll<Result<usize, IoError>> {
        let (r, raise) = self.io.poll_transmit(&mut self.handle, &[data], thread, 7);
        if raise {
            self.signal.raise();
        }
        r
    }

    fn write_all(&mut self, data: &[u8]) -> Result<(), IoError> {
        let mut at = 0;
        while at < data.len() {
            match self.write(&data[at..]) {
                Poll::Ready(Ok(n)) => at += n,
                Poll::Ready(Err(e)) => return Err(e),
                Poll::Pending => panic!("parked"),
            }
        }
        Ok(())
    }

    fn shutdown(&mut self) -> Result<(), IoError> {
        let (r, raise) = self.io.poll_shutdown(&mut self.handle);
        if raise {
            self.signal.raise();
        }
        r
    }

    fn read(&mut self, room: usize) -> Poll<Vec<u8>> {
        let mut buf = Vec::new();
        match self.io.poll_read(&mut self.handle, &self.staging, &mut buf, room, 9) {
            Poll::Ready(()) => Poll::Ready(buf),
            Poll::Pending => Poll::Pending,
        }
    }

    fn read_to_end(&mut self) -> Vec<u8> {
        let mut out = Vec::new();
        loop {
            match self.read(16) {
                Poll::Ready(bytes) if bytes.is_empty() => return out,
                Poll::Ready(bytes) => out.extend_from_slice(&bytes),
                Poll::Pending => panic!("parked"),
            }
        }
    }

    fn signalled(&mut self) -> bool {
        matches!(self.signal.poll(3), Poll::Ready(()))
    }

    fn pump(&mut self) -> Pumped {
        self.handle.pump(THREAD).0
    }
}

#[test]
fn read_waits_then_delivers() {
    let mut p = pair();
    assert!(matches!(p.read(16), Poll::Pending));
    assert_eq!(p.handle.push_rx(b"hello dma"), Some(9));
    assert!(matches!(p.read(16), Poll::Ready(bytes) if bytes == b"hello dma"));
}

#[test]
fn eof_after_close() {
    let mut p = pair();
    p.handle.push_rx(b"tail");
    p.handle.close_rx();
    assert_eq!(p.read_to_end(), b"tail");
}

#[test]
fn abort_discards_buffers_and_closes_both_halves() {
    let mut p = pair();
    p.handle.push_rx(b"unread");
    assert!(matches!(p.write(b"unsent"), Poll::Pending));

    assert_eq!(p.handle.abort(THREAD), (None, Some(7)));

    assert!(matches!(p.read(8), Poll::Ready(bytes) if bytes.is_empty()));
    assert_eq!(p.write_all(b"late").unwrap_err().kind, ErrorKind::BrokenPipe);
    assert_eq!(p.handle.take_tx_stats().accepted, 0);
    assert!(p.handle.tx_finished());
}

#[test]
fn zero_copy_staging_read_marks_consumed_input() {
    let mut p = pair();
    p.staging = b"....GET / HTTP/1.1\r\n\r\nXXXX".to_vec();
    p.handle.set_staging(p.staging.as_ptr() as usize, p.staging.len());
    // Two segments referencing offsets within the staging region.
    p.handle.push_segment(4, 14); // "GET / HTTP/1.1"
    p.handle.push_segment(18, 4); // "\r\n\r\n"
    p.handle.close_rx();
    assert!(!p.handle.take_dirty(), "delivery alone is not stack activity");

    assert_eq!(p.read_to_end(), b"GET / HTTP/1.1\r\n\r\n");
    assert!(p.handle.take_dirty(), "consumed input is custody to return");
    assert!(!p.handle.has_rx());
}

#[test]
fn peer_addr_reports_flow_src() {
    let p = pair();
    assert_eq!(p.io.peer_addr(), peer());
}

#[test]
fn writes_summon_the_driver_once_and_the_pump_publishes() {
    let mut p = pair();
    let writer = p.bind(64);
    assert!(!p.signalled());
    p.write_all(b"one").unwrap();
    p.write_all(b"two").unwrap();
    p.io.poll_flush(&p.handle).unwrap();
    assert!(p.signalled(), "the first write raised it");
    assert!(!p.signalled(), "later writes did not re-raise");
    assert!(p.handle.take_dirty());
    assert!(!p.handle.take_dirty());
    assert!(writer.borrow().published.is_empty());
    let pumped = p.pump();
    assert_eq!(writer.borrow().published, vec![b"onetwo".to_vec()]);
    assert_eq!(pumped.stats.accepted, 6);
    assert_eq!(pumped.stats.copied, 6);
    assert_eq!(pumped.stats.publications, 1);
    assert!(!pumped.blocked);
    assert!(!pumped.state.tx_finished);
}

#[test]
fn a_full_batch_parks_the_writer_until_the_pump_publishes() {
    let mut p = pair();
    let writer = p.bind(4);
    assert!(matches!(p.write(b"012345"), Poll::Ready(Ok(4))));
    assert!(p.signalled());
    assert!(matches!(p.write(b"45"), Poll::Pending));
    assert!(!p.signalled(), "a refused write does not summon the driver");
    assert!(p.handle.take_dirty());
    let (pumped, wake) = p.handle.pump(THREAD);
    assert_eq!(wake, Some(7));
    assert_eq!(pumped.stats.retries, 1);
    p.write_all(b"45").unwrap();
    p.pump();
    assert_eq!(writer.borrow().published, vec![b"0123".to_vec(), b"45".to_vec()]);
}

#[test]
fn a_dry_arena_is_retried_on_a_later_pass_without_spinning() {
    let mut p = pair();
    let writer = p.bind(64);
    writer.borrow_mut().dry = true;
    assert!(matches!(p.write(b"later"), Poll::Pending));
    assert!(!p.signalled());
    assert!(p.handle.take_dirty());
    // A pass with nothing to publish wakes the writer to try again.
    let (pumped, wake) = p.handle.pump(THREAD);
    assert_eq!(pumped.stats.retries, 1);
    assert_eq!(wake, Some(7));
    writer.borrow_mut().dry = false;
    p.write_all(b"later").unwrap();
    p.pump();
    assert_eq!(writer.borrow().published, vec![b"later".to_vec()]);
}

#[test]
fn a_refused_flush_keeps_the_batch_and_reports_blocked() {
    let mut p = pair();
    let writer = p.bind(64);
    p.write_all(b"held").unwrap();
    writer.borrow_mut().refuse_flush = true;
    let pumped = p.pump();
    assert!(pumped.blocked);
    assert_eq!(pumped.stats.retries, 1);
    assert_eq!(pumped.stats.accepted, 0);
    assert!(writer.borrow().published.is_empty());
    writer.borrow_mut().refuse_flush = false;
    let pumped = p.pump();
    assert!(!pumped.blocked);
    assert_eq!(pumped.stats.accepted, 4);
    assert_eq!(writer.borrow().published, vec![b"held".to_vec()]);
}

#[test]
fn shutdown_finishes_only_after_the_batch_is_published() {
    let mut p = pair();
    let writer = p.bind(64);
    p.write_all(b"last").unwrap();
    assert!(p.signalled());
    p.shutdown().unwrap();
    assert!(p.signalled(), "shutdown summons the driver");
    assert!(!p.handle.tx_finished(), "buffered DATA precedes the FIN");
    let pumped = p.pump();
    assert!(pumped.state.tx_finished);
    assert!(!pumped.state.tx_aborted);
    assert_eq!(writer.borrow().published, vec![b"last".to_vec()]);
    assert_eq!(p.write_all(b"late").unwrap_err().kind, ErrorKind::BrokenPipe);
}

#[test]
fn dropping_the_endpoint_reports_an_abort() {
    let mut p = pair();
    p.bind(64);
    assert!(p.io.release(&mut p.handle));
    assert!(p.handle.take_dirty());
    assert!(p.handle.pump(THREAD).0.state.tx_aborted);
}

#[test]
fn a_partial_write_owns_its_prefix_and_the_rest_follows() {
    let mut p = pair();
    let writer = p.bind(4);
    let mut source = b"0123456789".to_vec();
    assert!(matches!(p.write(&source), Poll::Ready(Ok(4))));
    source[..4].fill(99);
    p.pump();
    let mut at = 4;
    while at < source.len() {
        match p.write(&source[at..]) {
            Poll::Ready(Ok(n)) => at += n,
            Poll::Pending => {
                p.pump();
            }
            Poll::Ready(Err(e)) => panic!("{e:?}"),
        }
    }
    p.pump();
    assert_eq!(
        writer.borrow().published.concat(),
        b"0123456789",
        "the accepted prefix survives the caller's overwrite"
    );
}

#[test]
fn a_refused_write_keeps_no_caller_bytes() {
    let mut p = pair();
    assert!(matches!(p.write(b"unbound"), Poll::Pending));
    let writer = p.bind(64);
    writer.borrow_mut().dry = true;
    assert!(matches!(p.write(b"refused"), Poll::Pending));
    writer.borrow_mut().dry = false;
    p.pump();
    p.write_all(b"replacement").unwrap();
    p.shutdown().unwrap();
    let pumped = p.pump();
    assert!(pumped.state.tx_finished && !pumped.state.tx_aborted);
    assert_eq!(writer.borrow().published, vec![b"replacement".to_vec()]);
}

#[test]
fn empty_write_never_reaches_the_writer() {
    let mut p = pair();
    let writer = p.bind(64);
    p.write_all(b"").unwrap();
    assert!(matches!(p.write(b""), Poll::Ready(Ok(0))));
    assert_eq!(writer.borrow().calls, 0);
    assert!(!p.handle.take_dirty());
    assert!(!p.signalled());
}

#[test]
fn wrong_thread_never_enters_writer() {
    let mut p = pair();
    let writer = p.bind(64);
    assert!(matches!(p.write_from(b"wrong", THREAD + 1), Poll::Ready(Err(_))));
    assert_eq!(writer.borrow().calls, 0);
    assert!(p.handle.drain_state().tx_aborted);
    assert!(p.handle.take_dirty());
}

#[test]
fn a_failed_flush_is_latched() {
    let mut p = pair();
    let writer = p.bind(64);
    p.write_all(b"lost").unwrap();
    writer.borrow_mut().fail_flush = true;
    let pumped = p.pump();
    assert!(pumped.state.tx_aborted);
    assert_eq!(pumped.stats.errors, 1);
    assert_eq!(p.write_all(b"more").unwrap_err().kind, ErrorKind::ConnectionReset);
    assert!(p.io.poll_flush(&p.handle).is_err());
}

#[test]
fn the_route_is_installed_before_the_stack_writes() {
    let (io, mut handle) = dmesh_io_pair::<Batching, u32, ()>(peer(), Some(SessionToken::new(0, 1, 2)));
    assert_eq!(io.dmesh_session(), Some(SessionToken::new(0, 1, 2)));
    assert_eq!(io.peek(), 0);
    io.set_backend_route(&mut handle, BackendRoute::Local(5));
    assert!(matches!(handle.backend_route(), BackendRoute::Local(5)));
    let state = Rc::new(RefCell::new(Batch { cap: 8, ..Batch::default() }));
    handle.bind_writer(Batching(state.clone()), (), THREAD, false);
    io.poll_transmit(&mut handle, &[b"ab", b"cd"], THREAD, 0);
    assert_eq!(state.borrow().batch, b"abcd");
    assert!(matches!(state.borrow().routes[..], [BackendRoute::Local(5)]));
}

#[test]
fn offered_bytes_are_added_up() {
    assert_eq!(offered_len(&[]), 0);
    assert_eq!(offered_len(&[b"abc", b"", b"de"]), 5);
}

struct WriteOnly;

impl TxWriter for WriteOnly {
    fn write(&mut self, _: &BackendRoute, _: &[&[u8]]) -> TxAttempt {
        TxAttempt::Retry
    }
}

#[test]
fn a_writer_has_nothing_to_flush_by_default() {
    assert!(matches!(WriteOnly.flush(), Ok(Some(0))));
}

#[test]
fn an_empty_segment_is_not_the_end_of_the_input() {
    let mut p = pair();
    p.staging = b"data".to_vec();
    p.handle.set_staging(p.staging.as_ptr() as usize, p.staging.len());
    p.handle.push_segment(0, 0);
    assert!(!p.handle.has_rx());
    assert!(matches!(p.read(16), Poll::Pending));
    p.handle.push_segment(0, 0);
    p.handle.push_segment(0, 4);
    p.handle.push_segment(4, 0);
    p.handle.close_rx();
    assert!(matches!(p.read(16), Poll::Ready(bytes) if bytes == b"data"));
    assert!(matches!(p.read(16), Poll::Ready(bytes) if bytes.is_empty()));
}

#[test]
fn accepted_prefixes_are_published_in_order() {
    let mut p = pair();
    let writer = p.bind(4);
    assert!(matches!(p.write(b"abcdef"), Poll::Ready(Ok(4))));
    p.handle.pump(THREAD);
    assert!(matches!(p.write(b"ef"), Poll::Ready(Ok(2))));
    assert!(matches!(p.write(b"ghi"), Poll::Ready(Ok(2))));
    p.handle.pump(THREAD);
    assert_eq!(writer.borrow().published.concat(), b"abcdefgh");
}

#[test]
fn an_abort_cancels_the_batch_on_the_owning_thread_only() {
    let mut p = pair();
    let writer = p.bind(8);
    assert!(matches!(p.write(b"abc"), Poll::Ready(Ok(3))));
    p.handle.abort(THREAD);
    assert!(writer.borrow().batch.is_empty());
    let mut p = pair();
    let writer = p.bind(8);
    assert!(matches!(p.write(b"abc"), Poll::Ready(Ok(3))));
    p.handle.abort(THREAD + 1);
    assert_eq!(writer.borrow().batch, b"abc");
}
