use dmesh::acceptor::{AcceptAction, AcceptInput, Admission, Closed, DmeshTarget, Sessions};
use dmesh::backend::{Backends, EndpointVerdict, PublishError};
use dmesh::metrics::SessionMetrics;
use dmesh::net::{SocketAddr, SocketAddrV4};
use dmesh::session::{DmeshEvent, FlowId, SessionToken};
use std::cell::RefCell;
use std::collections::BTreeSet;

type Channel = &'static str;
type Channels = Backends<Channel, fn(SocketAddr) -> EndpointVerdict>;

/// Tasks are numbers; a set says which of them have ended.
struct Harness {
    sessions: Sessions<u32>,
    registry: Channels,
    metrics: SessionMetrics,
    ended: RefCell<BTreeSet<u32>>,
    started: u32,
    dropped: Vec<u32>,
    registered: Vec<SessionToken>,
    stopped: bool,
}

fn flow(port: u16) -> FlowId {
    FlowId {
        src: SocketAddrV4 { ip: 0x0a61_0001, port },
        dst: SocketAddrV4 { ip: 0x0a60_000b, port: 9092 },
        workload: "test".to_string(),
        is_backend: false,
    }
}

fn service() -> SocketAddr {
    SocketAddr::V4(SocketAddrV4 { ip: 0x0a60_000b, port: 9092 })
}

fn start() -> Harness {
    Harness {
        sessions: Sessions::new(),
        registry: Channels::new(),
        metrics: SessionMetrics::new(),
        ended: RefCell::new(BTreeSet::new()),
        started: 0,
        dropped: Vec::new(),
        registered: Vec::new(),
        stopped: false,
    }
}

impl Harness {
    fn reap(&mut self, closed: Closed<u32, Channel>) {
        closed.counts.record(&self.metrics);
        if closed.cancel {
            self.dropped.push(closed.task.unwrap());
        }
    }

    fn give(&mut self, input: AcceptInput) {
        let ended = self.ended.clone();
        let is_finished = |task: &u32| ended.borrow().contains(task);
        match self.sessions.accept(&mut self.registry, input, &is_finished) {
            AcceptAction::Stop => {
                let rest = self.sessions.drain(&mut self.registry, &is_finished);
                for closed in rest {
                    self.reap(closed);
                }
                self.stopped = true;
            }
            AcceptAction::Wait => {}
            AcceptAction::Register(token, flow) => {
                self.registered.push(token);
                let (admission, _) =
                    self.sessions.ready(&mut self.registry, token, &flow, "channel", true);
                if let Admission::Serve(target) = admission {
                    assert_eq!(target.session, token);
                    self.started += 1;
                    let (_, counts) = self.sessions.track(token, self.started);
                    counts.record(&self.metrics);
                }
            }
            AcceptAction::Reap(closed) => self.reap(closed),
            AcceptAction::Report(_) => {}
        }
    }
}

#[test]
fn target_keeps_the_flow_policy_workload() {
    let flow = flow(1);
    let target = DmeshTarget::new(&flow, SessionToken::new(0, 0, 0));
    assert_eq!(target.policy_workload(), "test");
}

#[test]
fn close_cancels_the_session_task() {
    let mut h = start();
    let token = SessionToken::new(0, 0, 0);

    h.give(AcceptInput::Event(DmeshEvent::ConnReady(token, flow(1))));
    assert_eq!(h.started, 1);
    assert_eq!(h.metrics.tasks_live.get(), 1);
    assert_eq!(h.registered, vec![token]);

    h.give(AcceptInput::Event(DmeshEvent::ConnClosed(token)));
    assert_eq!(h.dropped.len(), 1, "the task was cancelled");
    assert_eq!(h.metrics.tasks_live.get(), 0);
    assert_eq!(h.metrics.tasks_cancelled.get(), 1);

    h.give(AcceptInput::Shutdown);
    assert!(h.stopped);
}

#[test]
fn a_reused_slot_is_not_cancelled_by_the_older_close() {
    let mut h = start();
    let old = SessionToken::new(0, 4, 7);
    let new = SessionToken::new(0, 4, 8);

    h.give(AcceptInput::Event(DmeshEvent::ConnReady(old, flow(1))));
    h.give(AcceptInput::Event(DmeshEvent::ConnClosed(old)));
    assert_eq!(h.dropped.len(), 1);

    h.give(AcceptInput::Event(DmeshEvent::ConnReady(new, flow(2))));
    assert_eq!(h.started, 2);
    assert_eq!(h.metrics.tasks_live.get(), 1);

    // The closed generation's late close names a session that is gone.
    h.give(AcceptInput::Event(DmeshEvent::ConnClosed(old)));
    assert_eq!(h.dropped.len(), 1, "generation 7's close must not cancel generation 8");
    assert_eq!(h.metrics.tasks_live.get(), 1);

    h.give(AcceptInput::Shutdown);
    assert_eq!(h.dropped.len(), 2, "shutdown ends the rest");
    assert_eq!(h.metrics.tasks_live.get(), 0);
}

#[test]
fn a_backend_flow_publishes_and_the_close_withdraws_it() {
    let mut h = start();
    let token = SessionToken::new(0, 1, 0);
    let backend = FlowId { is_backend: true, ..flow(3) };

    h.give(AcceptInput::Event(DmeshEvent::ConnReady(token, backend)));
    assert_eq!(h.registry.sessions_for(&service()), vec![token]);
    assert_eq!(h.metrics.tasks_live.get(), 0, "a backend is not served");

    h.give(AcceptInput::Event(DmeshEvent::ConnClosed(token)));
    assert!(!h.registry.contains_service(&service()));
}

#[test]
fn shutdown_withdraws_a_backend_without_a_service_task() {
    let mut h = start();
    let token = SessionToken::new(0, 3, 0);
    let backend = FlowId { is_backend: true, ..flow(5) };

    h.give(AcceptInput::Event(DmeshEvent::ConnReady(token, backend)));
    assert_eq!(h.registry.sessions_for(&service()), vec![token]);

    h.give(AcceptInput::Shutdown);
    assert!(h.registry.is_empty(), "shutdown withdrew the backend");
}

#[test]
fn a_finished_task_stops_being_owned() {
    let mut h = start();
    let token = SessionToken::new(0, 2, 0);
    h.give(AcceptInput::Event(DmeshEvent::ConnReady(token, flow(4))));
    h.ended.borrow_mut().insert(1);
    h.give(AcceptInput::Finished(token));
    h.give(AcceptInput::Joined);
    assert_eq!(h.metrics.tasks_live.get(), 0);
    assert_eq!(
        h.metrics.tasks_cancelled.get(),
        0,
        "a task that ended on its own was not cancelled"
    );

    // A close arriving after the task ended is not an error.
    h.give(AcceptInput::Event(DmeshEvent::ConnClosed(token)));
    assert_eq!(h.metrics.tasks_cancelled.get(), 0);
}

#[test]
fn a_close_spares_other_sessions() {
    let mut h = start();
    for slot in 0..3 {
        h.give(AcceptInput::Event(DmeshEvent::ConnReady(SessionToken::new(0, slot, 0), flow(1))));
    }
    h.give(AcceptInput::Event(DmeshEvent::ConnClosed(SessionToken::new(0, 1, 0))));
    assert_eq!(h.dropped, vec![2]);
    assert_eq!(h.metrics.tasks_live.get(), 2);
}

#[test]
fn a_channel_that_nobody_pumps_is_not_served() {
    let mut h = start();
    let token = SessionToken::new(0, 0, 0);
    let (admission, channel) =
        h.sessions.ready(&mut h.registry, token, &flow(1), "channel", false);
    assert!(matches!(admission, Admission::Stop));
    assert_eq!(channel, None);
    let backend = FlowId { is_backend: true, ..flow(1) };
    let (first, kept) = h.sessions.ready(&mut h.registry, token, &backend, "one", true);
    assert!(matches!(first, Admission::Published));
    assert_eq!(kept, None);
    let (second, kept) = h.sessions.ready(&mut h.registry, token, &backend, "two", true);
    assert!(matches!(second, Admission::Refused(PublishError::AlreadyLive)));
    assert_eq!(kept, None);
}
