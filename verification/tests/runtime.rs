use dmesh::io::ErrorKind;
use dmesh::runtime::{
    Action, Event, NotificationFds, Progress, Runtime, Wake, DRAIN_BUDGET, MAINTENANCE_PERIOD,
};

/// A backend and its clock. Nothing notifies: a wait ends by internal work where
/// that may be waited on, and at the deadline otherwise.
#[derive(Default)]
struct Backend {
    now: u64,
    drains: usize,
    progressed: usize,
    stop_after: usize,
    internal_work: bool,
    internal_polls: usize,
    maintenances: usize,
    waits: usize,
    arms: usize,
    fail_drain: bool,
}

impl Backend {
    fn stopped(&self) -> bool {
        self.drains >= self.stop_after
    }

    fn run(&mut self) -> bool {
        let mut runtime = Runtime::new(self.now);
        let mut action = Action::Begin;
        loop {
            let event = match action {
                Action::Begin => Event::PassBegins { now: self.now, stopped: self.stopped() },
                Action::Maintain => {
                    self.maintenances += 1;
                    Event::Maintained { ok: true }
                }
                Action::Drain { budget } => {
                    assert_eq!(budget, DRAIN_BUDGET);
                    self.drains += 1;
                    let progress = if self.fail_drain {
                        None
                    } else if self.drains <= self.progressed {
                        Some(Progress::Progressed)
                    } else {
                        Some(Progress::Idle)
                    };
                    Event::Drained { progress, stopped: self.stopped() }
                }
                Action::Yield => Event::Yielded,
                Action::Arm => {
                    self.arms += 1;
                    Event::Armed { ok: true }
                }
                Action::ClearNotifications => Event::Cleared { ok: true },
                Action::Wait { internal, deadline } => {
                    self.waits += 1;
                    if internal && self.internal_work {
                        self.internal_polls += 1;
                        Event::Woke { wake: Wake::Internal, ok: true }
                    } else {
                        self.now = self.now.max(deadline);
                        Event::Woke { wake: Wake::Deadline, ok: true }
                    }
                }
                Action::Finish => return true,
                Action::Fail => return false,
            };
            action = runtime.step(event);
        }
    }
}

#[test]
fn progresses_before_waiting() {
    let mut backend = Backend { progressed: 1, stop_after: 2, ..Backend::default() };
    assert!(backend.run());
    assert_eq!(backend.drains, 2);
    assert_eq!(backend.waits, 0);
}

/// Passes to observe. Two drains make a pass, so this is 20 of them.
const STUCK_DRAINS: usize = 40;

#[test]
fn unpublishable_internal_work_does_not_spin() {
    let mut state =
        Backend { stop_after: STUCK_DRAINS, internal_work: true, ..Backend::default() };
    assert!(state.run());
    assert_eq!(state.drains, STUCK_DRAINS);
    assert!(
        state.internal_polls <= STUCK_DRAINS / 4 + 1,
        "internal polls {} over {} drains",
        state.internal_polls,
        state.drains,
    );
    assert!(state.maintenances > 1, "maintenances {}", state.maintenances);
}

#[test]
fn a_wait_follows_an_armed_drain() {
    let mut backend = Backend { stop_after: 20, ..Backend::default() };
    assert!(backend.run());
    assert_eq!(backend.arms, 10);
    assert_eq!(backend.waits, 9);
    assert_eq!(backend.maintenances, 10);
    assert_eq!(backend.now, 9 * MAINTENANCE_PERIOD);
}

#[test]
fn a_failed_drain_ends_the_run() {
    let mut backend = Backend { stop_after: 20, fail_drain: true, ..Backend::default() };
    assert!(!backend.run());
}

#[test]
fn a_negative_descriptor_is_refused() {
    let good = NotificationFds { completion: 3, dma: Some(4), wake: 0 };
    assert!(good.check().is_ok());
    for bad in [
        NotificationFds { completion: -1, ..good },
        NotificationFds { dma: Some(-1), ..good },
        NotificationFds { wake: -1, ..good },
    ] {
        let error = bad.check().unwrap_err();
        assert_eq!(error.kind, ErrorKind::InvalidInput);
        assert_eq!(error.message, "negative notification fd");
    }
}
