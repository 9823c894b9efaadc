//! When the worker's runtime drains, arms, waits and maintains its datapath.
//!
//! The runtime performs one action at a time and reports how it went; what
//! comes next is decided here.
use vstd::prelude::*;

use crate::io::{ErrorKind, IoError};

verus! {

/// How much a drain may do before it returns.
pub const DRAIN_BUDGET: usize = 64;

/// Nanoseconds between two maintenance calls.
pub const MAINTENANCE_PERIOD: u64 = 1_000_000;

/// What a drain found.
#[derive(Clone, Copy, Debug, Eq, PartialEq, Structural)]
pub enum Progress {
    Idle,
    Pending,
    Progressed,
}

impl Default for Progress {
    fn default() -> (r: Self)
        ensures
            r == Progress::Idle,
    {
        Progress::Idle
    }
}

/// The file descriptors that say the datapath has something to do.
#[derive(Clone, Copy, Debug, PartialEq, Eq, Structural)]
pub struct NotificationFds {
    pub completion: i32,
    pub dma: Option<i32>,
    pub wake: i32,
}

impl NotificationFds {
    pub open spec fn valid(self) -> bool {
        self.completion >= 0 && (self.dma matches Some(fd) ==> fd >= 0) && self.wake >= 0
    }

    /// No descriptor may be negative.
    pub fn check(&self) -> (r: Result<(), IoError>)
        ensures
            r is Ok <==> self.valid(),
            r matches Err(e) ==> e.says(ErrorKind::InvalidInput, "negative notification fd"@),
    {
        let dma_valid: bool = match self.dma {
            Some(fd) => fd >= 0,
            None => true,
        };
        if self.completion >= 0 && dma_valid && self.wake >= 0 {
            Ok(())
        } else {
            Err(IoError::new(ErrorKind::InvalidInput, "negative notification fd"))
        }
    }
}

/// What ended a wait.
#[derive(Clone, Copy, Debug, PartialEq, Eq, Structural)]
pub enum Wake {
    Completion,
    Dma,
    /// The explicit wake descriptor.
    Explicit,
    /// The backend holds internal work.
    Internal,
    /// The maintenance deadline.
    Deadline,
}

/// What the runtime does next.
#[derive(Clone, Copy, Debug, PartialEq, Eq, Structural)]
pub enum Action {
    /// Read the clock and whether the backend stopped, and start a pass.
    Begin,
    Maintain,
    Drain { budget: usize },
    /// Let other tasks run, then start a pass.
    Yield,
    Arm,
    ClearNotifications,
    /// Wait for a notification or the deadline, and for the backend's internal
    /// work only where `internal` says so.
    Wait { internal: bool, deadline: u64 },
    /// The backend stopped.
    Finish,
    /// An action failed: tell the backend, and return the error.
    Fail,
}

/// How the action went.
#[derive(Clone, Copy, Debug, PartialEq, Eq, Structural)]
pub enum Event {
    PassBegins { now: u64, stopped: bool },
    Maintained { ok: bool },
    /// `None`: the drain failed.
    Drained { progress: Option<Progress>, stopped: bool },
    Armed { ok: bool },
    Woke { wake: Wake, ok: bool },
    Cleared { ok: bool },
    Yielded,
}

/// What follows once the notifications are cleared.
#[derive(Clone, Copy, Debug, PartialEq, Eq, Structural)]
pub enum AfterClear {
    Yield,
    Finish,
    Pass,
}

/// Which action is under way.
#[derive(Clone, Copy, Debug, PartialEq, Eq, Structural)]
pub enum Stage {
    Beginning,
    Maintaining,
    /// The drain before the sources are armed.
    Draining,
    Arming,
    /// The drain after the sources were armed.
    Redraining,
    Waiting,
    Clearing(AfterClear),
    Yielding,
    Done,
}

/// The runtime's own state.
#[derive(Clone, Copy, Debug, PartialEq, Eq, Structural)]
pub struct Runtime {
    pub stage: Stage,
    /// When maintenance is due, in nanoseconds of the runtime's clock.
    pub next_maintenance: u64,
    /// Whether the internal poll may be waited on this pass.
    ///
    /// The internal poll answers whether the backend holds work, not whether
    /// anything has changed since it was last asked. A pass that waits on it
    /// and then publishes nothing would find the same answer immediately, and
    /// waiting again would spin. One such wait takes it down until a
    /// notification, a drain that progresses or the maintenance deadline says
    /// that something moved.
    pub internal_armed: bool,
}

impl Runtime {
    /// The event reports on the action that is under way.
    pub open spec fn expects(self, event: Event) -> bool {
        match event {
            Event::PassBegins { now, stopped } => self.stage == Stage::Beginning && now
                <= u64::MAX - MAINTENANCE_PERIOD,
            Event::Maintained { ok } => self.stage == Stage::Maintaining,
            Event::Drained { progress, stopped } => self.stage == Stage::Draining || self.stage
                == Stage::Redraining,
            Event::Armed { ok } => self.stage == Stage::Arming,
            Event::Woke { wake, ok } => self.stage == Stage::Waiting && (wake == Wake::Internal
                ==> self.internal_armed),
            Event::Cleared { ok } => self.stage is Clearing,
            Event::Yielded => self.stage == Stage::Yielding,
        }
    }

    /// The state and the action that follow `event`.
    pub open spec fn next(self, event: Event) -> (Runtime, Action) {
        let failed = (Runtime { stage: Stage::Done, ..self }, Action::Fail);
        let finished = (Runtime { stage: Stage::Done, ..self }, Action::Finish);
        match event {
            Event::PassBegins { now, stopped } => if stopped {
                finished
            } else if now >= self.next_maintenance {
                (
                    Runtime {
                        stage: Stage::Maintaining,
                        next_maintenance: (now + MAINTENANCE_PERIOD) as u64,
                        ..self
                    },
                    Action::Maintain,
                )
            } else {
                (
                    Runtime { stage: Stage::Draining, ..self },
                    Action::Drain { budget: DRAIN_BUDGET },
                )
            },
            Event::Maintained { ok } => if ok {
                (
                    Runtime { stage: Stage::Draining, ..self },
                    Action::Drain { budget: DRAIN_BUDGET },
                )
            } else {
                failed
            },
            Event::Drained { progress, stopped } => match progress {
                None => failed,
                Some(Progress::Progressed) => if self.stage == Stage::Draining {
                    (
                        Runtime { stage: Stage::Yielding, internal_armed: true, ..self },
                        Action::Yield,
                    )
                } else {
                    (
                        Runtime {
                            stage: Stage::Clearing(AfterClear::Yield),
                            internal_armed: true,
                            ..self
                        },
                        Action::ClearNotifications,
                    )
                },
                Some(_) => if self.stage == Stage::Draining {
                    if stopped {
                        finished
                    } else {
                        (Runtime { stage: Stage::Arming, ..self }, Action::Arm)
                    }
                } else if stopped {
                    (
                        Runtime { stage: Stage::Clearing(AfterClear::Finish), ..self },
                        Action::ClearNotifications,
                    )
                } else {
                    (
                        Runtime { stage: Stage::Waiting, ..self },
                        Action::Wait {
                            internal: self.internal_armed,
                            deadline: self.next_maintenance,
                        },
                    )
                },
            },
            Event::Armed { ok } => if ok {
                (
                    Runtime { stage: Stage::Redraining, ..self },
                    Action::Drain { budget: DRAIN_BUDGET },
                )
            } else {
                failed
            },
            Event::Woke { wake, ok } => {
                let woken = Runtime { internal_armed: wake != Wake::Internal, ..self };
                if ok {
                    (
                        Runtime { stage: Stage::Clearing(AfterClear::Pass), ..woken },
                        Action::ClearNotifications,
                    )
                } else {
                    (Runtime { stage: Stage::Done, ..woken }, Action::Fail)
                }
            },
            Event::Cleared { ok } => if !ok {
                failed
            } else {
                match self.stage {
                    Stage::Clearing(AfterClear::Yield) => (
                        Runtime { stage: Stage::Yielding, ..self },
                        Action::Yield,
                    ),
                    Stage::Clearing(AfterClear::Finish) => finished,
                    _ => (Runtime { stage: Stage::Beginning, ..self }, Action::Begin),
                }
            },
            Event::Yielded => (Runtime { stage: Stage::Beginning, ..self }, Action::Begin),
        }
    }

    /// The runtime before its first pass, at `now`.
    pub fn new(now: u64) -> (r: Self)
        ensures
            r == (Runtime {
                stage: Stage::Beginning,
                next_maintenance: now,
                internal_armed: true,
            }),
    {
        Runtime { stage: Stage::Beginning, next_maintenance: now, internal_armed: true }
    }

    fn end(&mut self, action: Action) -> (r: Action)
        ensures
            r == action,
            *final(self) == (Runtime { stage: Stage::Done, ..*old(self) }),
    {
        self.stage = Stage::Done;
        action
    }

    fn drain_first(&mut self) -> (r: Action)
        ensures
            r == (Action::Drain { budget: DRAIN_BUDGET }),
            *final(self) == (Runtime { stage: Stage::Draining, ..*old(self) }),
    {
        self.stage = Stage::Draining;
        Action::Drain { budget: DRAIN_BUDGET }
    }

    fn drained(&mut self, progress: Option<Progress>, stopped: bool) -> (r: Action)
        requires
            old(self).expects(Event::Drained { progress, stopped }),
        ensures
            (*final(self), r) == old(self).next(Event::Drained { progress, stopped }),
    {
        let first: bool = self.stage == Stage::Draining;
        match progress {
            None => self.end(Action::Fail),
            Some(Progress::Progressed) => {
                self.internal_armed = true;
                if first {
                    self.stage = Stage::Yielding;
                    Action::Yield
                } else {
                    self.stage = Stage::Clearing(AfterClear::Yield);
                    Action::ClearNotifications
                }
            },
            Some(_) => {
                if first {
                    if stopped {
                        self.end(Action::Finish)
                    } else {
                        self.stage = Stage::Arming;
                        Action::Arm
                    }
                } else if stopped {
                    self.stage = Stage::Clearing(AfterClear::Finish);
                    Action::ClearNotifications
                } else {
                    self.stage = Stage::Waiting;
                    Action::Wait {
                        internal: self.internal_armed,
                        deadline: self.next_maintenance,
                    }
                }
            },
        }
    }

    /// Take the outcome of the action that was under way, and say what is next.
    pub fn step(&mut self, event: Event) -> (r: Action)
        requires
            old(self).expects(event),
        ensures
            (*final(self), r) == old(self).next(event),
    {
        match event {
            Event::PassBegins { now, stopped } => {
                if stopped {
                    self.end(Action::Finish)
                } else if now >= self.next_maintenance {
                    self.stage = Stage::Maintaining;
                    self.next_maintenance = now + MAINTENANCE_PERIOD;
                    Action::Maintain
                } else {
                    self.drain_first()
                }
            },
            Event::Maintained { ok } => {
                if ok {
                    self.drain_first()
                } else {
                    self.end(Action::Fail)
                }
            },
            Event::Drained { progress, stopped } => self.drained(progress, stopped),
            Event::Armed { ok } => {
                if ok {
                    self.stage = Stage::Redraining;
                    Action::Drain { budget: DRAIN_BUDGET }
                } else {
                    self.end(Action::Fail)
                }
            },
            Event::Woke { wake, ok } => {
                self.internal_armed = wake != Wake::Internal;
                if ok {
                    self.stage = Stage::Clearing(AfterClear::Pass);
                    Action::ClearNotifications
                } else {
                    self.end(Action::Fail)
                }
            },
            Event::Cleared { ok } => {
                if !ok {
                    self.end(Action::Fail)
                } else {
                    match self.stage {
                        Stage::Clearing(AfterClear::Yield) => {
                            self.stage = Stage::Yielding;
                            Action::Yield
                        },
                        Stage::Clearing(AfterClear::Finish) => self.end(Action::Finish),
                        _ => {
                            self.stage = Stage::Beginning;
                            Action::Begin
                        },
                    }
                }
            },
            Event::Yielded => {
                self.stage = Stage::Beginning;
                Action::Begin
            },
        }
    }
}

/// `event` says that something moved: a drain progressed, a notification came
/// or the maintenance deadline passed.
pub open spec fn moves(event: Event) -> bool {
    match event {
        Event::Drained { progress, stopped } => progress == Some(Progress::Progressed),
        Event::Woke { wake, ok } => wake != Wake::Internal,
        _ => false,
    }
}

/// A run of the runtime: every event was expected where it came, and each
/// state follows from the one before.
pub open spec fn is_run(states: Seq<Runtime>, events: Seq<Event>) -> bool {
    &&& states.len() == events.len() + 1
    &&& forall|k: int|
        #![trigger states[k]]
        #![trigger events[k]]
        0 <= k < events.len() ==> states[k].expects(events[k]) && states[k + 1] == states[k].next(
            events[k],
        ).0
}

/// Internal work that nothing publishes does not spin the runtime: between two
/// wakes on the internal poll, something moved.
pub proof fn internal_work_does_not_spin(
    states: Seq<Runtime>,
    events: Seq<Event>,
    i: int,
    j: int,
) -> (k: int)
    requires
        is_run(states, events),
        0 <= i < j < events.len(),
        events[i] matches Event::Woke { wake: Wake::Internal, .. },
        events[j] matches Event::Woke { wake: Wake::Internal, .. },
    ensures
        i < k < j,
        moves(events[k]),
{
    assert(states[i + 1] == states[i].next(events[i]).0);
    assert(states[j].expects(events[j]));
    armed_by_a_move(states, events, i + 1, j)
}

proof fn armed_by_a_move(states: Seq<Runtime>, events: Seq<Event>, from: int, to: int) -> (k: int)
    requires
        is_run(states, events),
        0 <= from <= to < states.len(),
        !states[from].internal_armed,
        states[to].internal_armed,
    ensures
        from <= k < to,
        moves(events[k]),
    decreases to - from,
{
    assert(states[from].expects(events[from]));
    assert(states[from + 1] == states[from].next(events[from]).0);
    if moves(events[from]) {
        from
    } else {
        armed_by_a_move(states, events, from + 1, to)
    }
}

/// Every pass drains before it waits: a wait follows a drain, made after the
/// sources were armed, that found nothing to move.
pub proof fn a_wait_follows_an_armed_drain(state: Runtime, event: Event)
    requires
        state.expects(event),
        state.next(event).1 is Wait,
    ensures
        state.stage == Stage::Redraining,
        event matches Event::Drained { progress: Some(p), stopped } && p != Progress::Progressed
            && !stopped,
{
}

/// The runtime waits no longer than to the deadline that maintenance set, one
/// period after the pass that called it.
pub proof fn maintenance_keeps_its_period(state: Runtime, now: u64)
    requires
        state.expects(Event::PassBegins { now, stopped: false }),
        now >= state.next_maintenance,
    ensures
        state.next(Event::PassBegins { now, stopped: false }).1 == Action::Maintain,
        state.next(Event::PassBegins { now, stopped: false }).0.next_maintenance == now
            + MAINTENANCE_PERIOD,
{
}

/// A pass begins with maintenance where it is due, and drains; a drain that
/// found something yields; one that found nothing before the sources were armed
/// arms them and drains again, and one that found nothing after that waits. What
/// wakes it is cleared before the next pass. A backend that stopped ends the
/// runtime, and an action that failed fails it.
pub proof fn a_pass_drains_arms_and_waits(event: Event)
    ensures
        forall|runtime: &mut Runtime, r: Action| #[trigger]
            call_ensures(Runtime::step, (runtime, event), r) ==> {
                let armed = runtime.stage != Stage::Draining;
                match event {
                    Event::PassBegins { now, stopped } => {
                        &&& stopped ==> r == Action::Finish
                        &&& !stopped && now >= runtime.next_maintenance ==> r == Action::Maintain
                        &&& !stopped && now < runtime.next_maintenance ==> r == Action::Drain {
                            budget: 64,
                        }
                    },
                    Event::Maintained { ok } => r == if ok {
                        Action::Drain { budget: 64 }
                    } else {
                        Action::Fail
                    },
                    Event::Armed { ok } => r == if ok {
                        Action::Drain { budget: 64 }
                    } else {
                        Action::Fail
                    },
                    Event::Drained { progress, stopped } => {
                        &&& progress is None ==> r == Action::Fail
                        &&& progress == Some(Progress::Progressed) && !armed ==> r == Action::Yield
                        &&& progress == Some(Progress::Progressed) && armed ==> r
                            == Action::ClearNotifications
                        &&& (progress == Some(Progress::Idle) || progress == Some(
                            Progress::Pending,
                        )) ==> {
                            &&& !armed && stopped ==> r == Action::Finish
                            &&& !armed && !stopped ==> r == Action::Arm
                            &&& armed && stopped ==> r == Action::ClearNotifications
                            &&& armed && !stopped ==> r == Action::Wait {
                                internal: runtime.internal_armed,
                                deadline: runtime.next_maintenance,
                            }
                        }
                    },
                    Event::Woke { wake, ok } => r == if ok {
                        Action::ClearNotifications
                    } else {
                        Action::Fail
                    },
                    Event::Cleared { ok } => {
                        &&& !ok ==> r == Action::Fail
                        &&& ok && runtime.stage == Stage::Clearing(AfterClear::Yield) ==> r
                            == Action::Yield
                        &&& ok && runtime.stage == Stage::Clearing(AfterClear::Finish) ==> r
                            == Action::Finish
                        &&& ok && runtime.stage == Stage::Clearing(AfterClear::Pass) ==> r
                            == Action::Begin
                    },
                    Event::Yielded => r == Action::Begin,
                }
            },
{
}

/// After an armed drain that progressed the cleared runtime yields, after one
/// that found the backend stopped it finishes, and after a wake it begins a pass.
pub proof fn a_clear_leads_where_it_was_for(event: Event)
    ensures
        forall|runtime: &mut Runtime, r: Action| #[trigger]
            call_ensures(Runtime::step, (runtime, event), r) && r == Action::ClearNotifications
                ==> final(runtime).stage == match event {
                Event::Drained { progress, stopped } => if progress == Some(Progress::Progressed) {
                    Stage::Clearing(AfterClear::Yield)
                } else {
                    Stage::Clearing(AfterClear::Finish)
                },
                _ => Stage::Clearing(AfterClear::Pass),
            },
{
}

/// Maintenance is due again a millisecond after the pass that it was due in, and
/// nothing else moves its time.
pub proof fn maintenance_is_due_by_the_clock(event: Event)
    ensures
        forall|runtime: &mut Runtime, r: Action| #[trigger]
            call_ensures(Runtime::step, (runtime, event), r) ==> {
                &&& r == Action::Maintain ==> (event matches Event::PassBegins { now, stopped }
                    && final(runtime).next_maintenance == (now + 1_000_000) as u64)
                &&& r != Action::Maintain ==> final(runtime).next_maintenance
                    == runtime.next_maintenance
            },
{
}

/// The internal poll is waited on again exactly once something moved: a drain
/// that progressed and any wake but its own arm it, and its own wake takes it
/// down.
pub proof fn the_internal_poll_is_armed_by_a_move(event: Event)
    ensures
        forall|runtime: &mut Runtime, r: Action| #[trigger]
            call_ensures(Runtime::step, (runtime, event), r) ==> final(runtime).internal_armed
                == match event {
                Event::Drained { progress, stopped } => runtime.internal_armed || progress == Some(
                    Progress::Progressed,
                ),
                Event::Woke { wake, ok } => wake == Wake::Completion || wake == Wake::Dma || wake
                    == Wake::Explicit || wake == Wake::Deadline,
                _ => runtime.internal_armed,
            },
{
}

/// What a step asks for is what the next step expects to hear of; once the
/// runtime has finished or failed nothing is expected.
pub proof fn a_runtime_expects_its_outcome(event: Event, next: Event)
    ensures
        forall|runtime: &mut Runtime, r: Action| #[trigger]
            call_ensures(Runtime::step, (runtime, event), r) ==> {
                let heard = match r {
                    Action::Begin => next is PassBegins,
                    Action::Maintain => next is Maintained,
                    Action::Drain { budget } => next is Drained,
                    Action::Yield => next is Yielded,
                    Action::Arm => next is Armed,
                    Action::ClearNotifications => next is Cleared,
                    Action::Wait { internal, deadline } => next is Woke,
                    Action::Finish => false,
                    Action::Fail => false,
                };
                &&& final(runtime).expects(next) ==> heard
                &&& heard && !(next is PassBegins) && !(next is Woke) ==> final(runtime).expects(
                    next,
                )
            },
{
}

/// A runtime begins with a pass in which maintenance is due, and may wait on
/// internal work.
pub proof fn a_runtime_begins_with_maintenance(now: u64, r: Runtime)
    requires
        call_ensures(Runtime::new, (now,), r),
    ensures
        r.stage == Stage::Beginning,
        r.next_maintenance == now,
        r.internal_armed,
{
}

/// Descriptors are accepted exactly where none is negative; there may be none
/// for DMA.
pub proof fn no_descriptor_is_negative(fds: NotificationFds, r: Result<(), IoError>)
    requires
        call_ensures(NotificationFds::check, (&fds,), r),
    ensures
        r is Ok <==> fds.completion >= 0 && fds.wake >= 0 && (fds.dma is None || fds.dma->0 >= 0),
        r is Err ==> r->Err_0.says(ErrorKind::InvalidInput, "negative notification fd"@),
{
}

/// A drain is taken to have found nothing where nothing is known of it.
pub proof fn progress_is_idle_by_default(r: Progress)
    requires
        call_ensures(Progress::default, (), r),
    ensures
        r == Progress::Idle,
{
}

} // verus!
