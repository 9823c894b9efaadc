//! The loop that drives a connection.
//!
//! A pass of the loop moves what it can: responses or requests, the callbacks'
//! actions, bodies, pings, outbound and inbound bytes. A pass that moved
//! something is followed by another; one that moved nothing parks the task.
//! The task performs one action at a time and reports how it went; what comes
//! next is decided here.
use vstd::prelude::*;

use crate::h2::error::{Error, Kind, Reason, INTERNAL_ERROR};
use crate::h2::keepalive::Tick;
use crate::h2::pump::{ReadStep, IN_DOS_CAP};

verus! {

/// The session and the transport at the end of a pass.
#[derive(Clone, Copy, Debug, PartialEq, Eq, Structural)]
pub struct Standing {
    /// The session expects frames. Once the connection is going away it does so
    /// only as long as a stream is open.
    pub want_read: bool,
    /// The session has frames to send.
    pub want_write: bool,
    /// Nothing serialized is left to write.
    pub out_empty: bool,
    /// No response (on a server) or request (on a client) is outstanding.
    pub idle: bool,
}

/// What the task does next.
#[derive(Clone, Copy, Debug, PartialEq, Eq, Structural)]
pub enum DriveAction {
    /// Submit the responses that are ready.
    TakeResponses,
    /// Submit the requests that are queued.
    TakeRequests,
    /// Handle the callbacks' actions.
    HandleActions,
    /// Poll the bodies that are sent, and resume streams.
    PumpBodies,
    /// Report what the consumers have read to the session.
    ForwardConsume,
    PollKeepAlive,
    SubmitPing(u64),
    /// Ask whether a shutdown is wanted.
    PollShutdown,
    /// Tell the peer that the connection is going away.
    GoAway,
    /// Serialize what the session has to send.
    FillOut,
    /// Write what is serialized.
    Flush,
    /// Ask whether the session expects frames, and how much is unsent.
    AskRead,
    /// Read the transport and feed the session.
    Read,
    /// Tell the keepalive that the peer is alive.
    NoteActivity,
    /// Look at the session and the transport.
    Assess,
    /// Wait to be woken.
    Park,
    /// The connection is over.
    Finish,
    /// The connection failed.
    Fail(Error),
}

/// How the action went.
#[derive(Clone, Copy, Debug)]
pub enum DriveEvent {
    /// So many responses were submitted.
    Responses(usize),
    /// So many requests were submitted; the flag says that no more can come.
    Requests(usize, bool),
    /// So many actions were handled.
    Handled(usize),
    /// Whether a body gave data or ended.
    Bodies(bool),
    Consumed,
    KeepAlive(Tick),
    PingSubmitted,
    /// Whether a shutdown is wanted.
    Shutdown(bool),
    GoneAway,
    /// So many bytes were serialized.
    Filled(Result<usize, Error>),
    /// How much was unsent before and after, and whether a write failed.
    Flushed { before: usize, after: usize, failed: bool },
    ReadAsked { session_wants: bool, unsent: usize },
    Read(Result<ReadStep, Error>),
    Noted,
    Assessed(Standing),
    Woken,
}

/// Which action is under way.
#[derive(Clone, Copy, Debug, PartialEq, Eq, Structural)]
pub enum DriveStage {
    Intake,
    Handling,
    Pumping,
    Consuming,
    KeepingAlive,
    Pinging,
    AskingShutdown,
    GoingAway,
    Filling,
    Flushing,
    AskingRead,
    Reading,
    Noting,
    Assessing,
    Parked,
    Done,
}

/// The loop of one connection.
#[derive(Clone, Copy, Debug, PartialEq, Eq, Structural)]
pub struct Drive {
    pub is_server: bool,
    /// The connection is pinged.
    pub keepalive: bool,
    pub stage: DriveStage,
    /// Something moved in this pass.
    pub progressed: bool,
    /// The peer closed its side, or no more requests come.
    pub closing: bool,
    /// A shutdown may still be asked for.
    pub shutdown: bool,
    /// The peer has been told that the connection is going away.
    pub going_away: bool,
}

impl Drive {
    /// The event reports on the action that is under way.
    pub open spec fn expects(self, event: DriveEvent) -> bool {
        match event {
            DriveEvent::Responses(_) => self.stage == DriveStage::Intake && self.is_server,
            DriveEvent::Requests(..) => self.stage == DriveStage::Intake && !self.is_server,
            DriveEvent::Handled(_) => self.stage == DriveStage::Handling,
            DriveEvent::Bodies(_) => self.stage == DriveStage::Pumping,
            DriveEvent::Consumed => self.stage == DriveStage::Consuming,
            DriveEvent::KeepAlive(_) => self.stage == DriveStage::KeepingAlive,
            DriveEvent::PingSubmitted => self.stage == DriveStage::Pinging,
            DriveEvent::Shutdown(_) => self.stage == DriveStage::AskingShutdown,
            DriveEvent::GoneAway => self.stage == DriveStage::GoingAway,
            DriveEvent::Filled(_) => self.stage == DriveStage::Filling,
            DriveEvent::Flushed { .. } => self.stage == DriveStage::Flushing,
            DriveEvent::ReadAsked { .. } => self.stage == DriveStage::AskingRead,
            DriveEvent::Read(_) => self.stage == DriveStage::Reading,
            DriveEvent::Noted => self.stage == DriveStage::Noting,
            DriveEvent::Assessed(_) => self.stage == DriveStage::Assessing,
            DriveEvent::Woken => self.stage == DriveStage::Parked,
        }
    }

    /// A pass begins.
    pub open spec fn pass(self) -> (Drive, DriveAction) {
        (
            Drive { stage: DriveStage::Intake, progressed: false, ..self },
            if self.is_server {
                DriveAction::TakeResponses
            } else {
                DriveAction::TakeRequests
            },
        )
    }

    /// Behind the keepalive comes the shutdown, where one may be asked for.
    pub open spec fn after_keepalive(self) -> (Drive, DriveAction) {
        if !self.going_away && self.shutdown {
            (Drive { stage: DriveStage::AskingShutdown, ..self }, DriveAction::PollShutdown)
        } else {
            (Drive { stage: DriveStage::Filling, ..self }, DriveAction::FillOut)
        }
    }

    pub open spec fn failed(self, error: Error) -> (Drive, DriveAction) {
        (Drive { stage: DriveStage::Done, ..self }, DriveAction::Fail(error))
    }

    /// The connection is over. A server's: the session is done with its peer and
    /// has nothing left to send, or the peer is gone; and nothing is
    /// outstanding. A connection that is going away is no exception: its open
    /// streams are served to their end. A client's: nobody asks for more, and
    /// nothing is outstanding on either side.
    pub open spec fn is_over(self, at: Standing) -> bool {
        if self.is_server {
            ||| !at.want_read && !at.want_write && at.out_empty && at.idle
            ||| self.closing && at.idle && at.out_empty
        } else {
            self.closing && !at.want_read && !at.want_write && at.out_empty && at.idle
        }
    }

    /// The state and the action that follow `event`.
    pub open spec fn next(self, event: DriveEvent) -> (Drive, DriveAction) {
        match event {
            DriveEvent::Responses(n) => (
                Drive {
                    stage: DriveStage::Handling,
                    progressed: self.progressed || n > 0,
                    ..self
                },
                DriveAction::HandleActions,
            ),
            DriveEvent::Requests(n, ended) => (
                Drive {
                    stage: DriveStage::Handling,
                    progressed: self.progressed || n > 0,
                    closing: self.closing || ended,
                    ..self
                },
                DriveAction::HandleActions,
            ),
            DriveEvent::Handled(n) => (
                Drive {
                    stage: DriveStage::Pumping,
                    progressed: self.progressed || n > 0,
                    ..self
                },
                DriveAction::PumpBodies,
            ),
            DriveEvent::Bodies(moved) => (
                Drive {
                    stage: DriveStage::Consuming,
                    progressed: self.progressed || moved,
                    ..self
                },
                DriveAction::ForwardConsume,
            ),
            DriveEvent::Consumed => if self.keepalive {
                (Drive { stage: DriveStage::KeepingAlive, ..self }, DriveAction::PollKeepAlive)
            } else {
                self.after_keepalive()
            },
            DriveEvent::KeepAlive(tick) => match tick {
                Tick::SendPing(payload) => (
                    Drive { stage: DriveStage::Pinging, progressed: true, ..self },
                    DriveAction::SubmitPing(payload),
                ),
                Tick::TimedOut => self.failed(Error { kind: Kind::KeepAliveTimedOut }),
                Tick::Idle => self.after_keepalive(),
            },
            DriveEvent::PingSubmitted => self.after_keepalive(),
            DriveEvent::Shutdown(wanted) => if wanted {
                (
                    Drive {
                        stage: DriveStage::GoingAway,
                        shutdown: false,
                        going_away: true,
                        progressed: true,
                        ..self
                    },
                    DriveAction::GoAway,
                )
            } else {
                (Drive { stage: DriveStage::Filling, ..self }, DriveAction::FillOut)
            },
            DriveEvent::GoneAway => (
                Drive { stage: DriveStage::Filling, ..self },
                DriveAction::FillOut,
            ),
            DriveEvent::Filled(filled) => match filled {
                Ok(n) => (
                    Drive {
                        stage: DriveStage::Flushing,
                        progressed: self.progressed || n > 0,
                        ..self
                    },
                    DriveAction::Flush,
                ),
                Err(error) => self.failed(error),
            },
            DriveEvent::Flushed { before, after, failed } => if failed {
                self.failed(Error { kind: Kind::Session(Reason(INTERNAL_ERROR)) })
            } else {
                (
                    Drive {
                        stage: DriveStage::AskingRead,
                        progressed: self.progressed || after < before,
                        ..self
                    },
                    DriveAction::AskRead,
                )
            },
            DriveEvent::ReadAsked { session_wants, unsent } => if session_wants && unsent
                < IN_DOS_CAP {
                (Drive { stage: DriveStage::Reading, ..self }, DriveAction::Read)
            } else {
                (Drive { stage: DriveStage::Assessing, ..self }, DriveAction::Assess)
            },
            DriveEvent::Read(step) => match step {
                Ok(ReadStep::Fed(_)) => if self.keepalive {
                    (
                        Drive { stage: DriveStage::Noting, progressed: true, ..self },
                        DriveAction::NoteActivity,
                    )
                } else {
                    (
                        Drive { stage: DriveStage::Assessing, progressed: true, ..self },
                        DriveAction::Assess,
                    )
                },
                Ok(ReadStep::Eof) => (
                    Drive { stage: DriveStage::Assessing, closing: true, ..self },
                    DriveAction::Assess,
                ),
                Ok(ReadStep::Pending) => (
                    Drive { stage: DriveStage::Assessing, ..self },
                    DriveAction::Assess,
                ),
                Err(error) => self.failed(error),
            },
            DriveEvent::Noted => (
                Drive { stage: DriveStage::Assessing, ..self },
                DriveAction::Assess,
            ),
            DriveEvent::Assessed(at) => if self.is_over(at) {
                (Drive { stage: DriveStage::Done, ..self }, DriveAction::Finish)
            } else if self.progressed {
                self.pass()
            } else {
                (Drive { stage: DriveStage::Parked, ..self }, DriveAction::Park)
            },
            DriveEvent::Woken => self.pass(),
        }
    }

    /// The loop of a server's connection, and its first action.
    pub fn server(keepalive: bool) -> (r: (Drive, DriveAction))
        ensures
            r == (
                Drive {
                    is_server: true,
                    keepalive,
                    stage: DriveStage::Intake,
                    progressed: false,
                    closing: false,
                    shutdown: true,
                    going_away: false,
                },
                DriveAction::TakeResponses,
            ),
    {
        (
            Drive {
                is_server: true,
                keepalive,
                stage: DriveStage::Intake,
                progressed: false,
                closing: false,
                shutdown: true,
                going_away: false,
            },
            DriveAction::TakeResponses,
        )
    }

    /// The loop of a client's connection, and its first action. It is not
    /// pinged, and nobody asks it to shut down.
    pub fn client() -> (r: (Drive, DriveAction))
        ensures
            r == (
                Drive {
                    is_server: false,
                    keepalive: false,
                    stage: DriveStage::Intake,
                    progressed: false,
                    closing: false,
                    shutdown: false,
                    going_away: false,
                },
                DriveAction::TakeRequests,
            ),
    {
        (
            Drive {
                is_server: false,
                keepalive: false,
                stage: DriveStage::Intake,
                progressed: false,
                closing: false,
                shutdown: false,
                going_away: false,
            },
            DriveAction::TakeRequests,
        )
    }

    fn begin_pass(&mut self) -> (r: DriveAction)
        ensures
            (*final(self), r) == old(self).pass(),
    {
        self.stage = DriveStage::Intake;
        self.progressed = false;
        if self.is_server {
            DriveAction::TakeResponses
        } else {
            DriveAction::TakeRequests
        }
    }

    fn goto(&mut self, stage: DriveStage, moved: bool, action: DriveAction) -> (r: DriveAction)
        ensures
            r == action,
            *final(self) == (Drive { stage, progressed: old(self).progressed || moved, ..*old(self) }),
    {
        self.stage = stage;
        self.progressed = self.progressed || moved;
        action
    }

    fn leave_keepalive(&mut self) -> (r: DriveAction)
        ensures
            (*final(self), r) == old(self).after_keepalive(),
    {
        if !self.going_away && self.shutdown {
            self.goto(DriveStage::AskingShutdown, false, DriveAction::PollShutdown)
        } else {
            self.goto(DriveStage::Filling, false, DriveAction::FillOut)
        }
    }

    fn fail(&mut self, error: Error) -> (r: DriveAction)
        ensures
            (*final(self), r) == old(self).failed(error),
    {
        self.goto(DriveStage::Done, false, DriveAction::Fail(error))
    }

    fn over(&self, at: Standing) -> (r: bool)
        ensures
            r == self.is_over(at),
    {
        if self.is_server {
            let done: bool = !at.want_read && !at.want_write && at.out_empty && at.idle;
            done || (self.closing && at.idle && at.out_empty)
        } else {
            self.closing && !at.want_read && !at.want_write && at.out_empty && at.idle
        }
    }

    fn read(&mut self, step: Result<ReadStep, Error>) -> (r: DriveAction)
        ensures
            (*final(self), r) == old(self).next(DriveEvent::Read(step)),
    {
        match step {
            Ok(ReadStep::Fed(_)) => {
                if self.keepalive {
                    self.goto(DriveStage::Noting, true, DriveAction::NoteActivity)
                } else {
                    self.goto(DriveStage::Assessing, true, DriveAction::Assess)
                }
            },
            Ok(ReadStep::Eof) => {
                self.closing = true;
                self.goto(DriveStage::Assessing, false, DriveAction::Assess)
            },
            Ok(ReadStep::Pending) => self.goto(DriveStage::Assessing, false, DriveAction::Assess),
            Err(error) => self.fail(error),
        }
    }

    /// Take the outcome of the action that was under way, and say what is next.
    pub fn step(&mut self, event: DriveEvent) -> (r: DriveAction)
        requires
            old(self).expects(event),
        ensures
            (*final(self), r) == old(self).next(event),
    {
        match event {
            DriveEvent::Responses(n) => self.goto(
                DriveStage::Handling,
                n > 0,
                DriveAction::HandleActions,
            ),
            DriveEvent::Requests(n, ended) => {
                self.closing = self.closing || ended;
                self.goto(DriveStage::Handling, n > 0, DriveAction::HandleActions)
            },
            DriveEvent::Handled(n) => self.goto(
                DriveStage::Pumping,
                n > 0,
                DriveAction::PumpBodies,
            ),
            DriveEvent::Bodies(moved) => self.goto(
                DriveStage::Consuming,
                moved,
                DriveAction::ForwardConsume,
            ),
            DriveEvent::Consumed => {
                if self.keepalive {
                    self.goto(DriveStage::KeepingAlive, false, DriveAction::PollKeepAlive)
                } else {
                    self.leave_keepalive()
                }
            },
            DriveEvent::KeepAlive(tick) => match tick {
                Tick::SendPing(payload) => self.goto(
                    DriveStage::Pinging,
                    true,
                    DriveAction::SubmitPing(payload),
                ),
                Tick::TimedOut => self.fail(Error::keepalive_timeout()),
                Tick::Idle => self.leave_keepalive(),
            },
            DriveEvent::PingSubmitted => self.leave_keepalive(),
            DriveEvent::Shutdown(wanted) => {
                if wanted {
                    self.shutdown = false;
                    self.going_away = true;
                    self.goto(DriveStage::GoingAway, true, DriveAction::GoAway)
                } else {
                    self.goto(DriveStage::Filling, false, DriveAction::FillOut)
                }
            },
            DriveEvent::GoneAway => self.goto(DriveStage::Filling, false, DriveAction::FillOut),
            DriveEvent::Filled(filled) => match filled {
                Ok(n) => self.goto(DriveStage::Flushing, n > 0, DriveAction::Flush),
                Err(error) => self.fail(error),
            },
            DriveEvent::Flushed { before, after, failed } => {
                if failed {
                    self.fail(Error::session(Reason(INTERNAL_ERROR)))
                } else {
                    self.goto(DriveStage::AskingRead, after < before, DriveAction::AskRead)
                }
            },
            DriveEvent::ReadAsked { session_wants, unsent } => {
                if session_wants && unsent < IN_DOS_CAP {
                    self.goto(DriveStage::Reading, false, DriveAction::Read)
                } else {
                    self.goto(DriveStage::Assessing, false, DriveAction::Assess)
                }
            },
            DriveEvent::Read(step) => self.read(step),
            DriveEvent::Noted => self.goto(DriveStage::Assessing, false, DriveAction::Assess),
            DriveEvent::Assessed(at) => {
                if self.over(at) {
                    self.goto(DriveStage::Done, false, DriveAction::Finish)
                } else if self.progressed {
                    self.begin_pass()
                } else {
                    self.goto(DriveStage::Parked, false, DriveAction::Park)
                }
            },
            DriveEvent::Woken => self.begin_pass(),
        }
    }
}

/// A run of the loop: every event was expected where it came, and each state
/// follows from the one before.
pub open spec fn is_drive(states: Seq<Drive>, events: Seq<DriveEvent>) -> bool {
    &&& states.len() == events.len() + 1
    &&& forall|k: int|
        #![trigger states[k]]
        #![trigger events[k]]
        0 <= k < events.len() ==> states[k].expects(events[k]) && states[k + 1] == states[k].next(
            events[k],
        ).0
}

/// The peer is told at most once that the connection is going away.
pub proof fn going_away_is_told_once(
    states: Seq<Drive>,
    events: Seq<DriveEvent>,
    i: int,
    j: int,
)
    requires
        is_drive(states, events),
        states[0].shutdown ==> !states[0].going_away,
        0 <= i < j < events.len(),
        states[i].next(events[i]).1 == DriveAction::GoAway,
    ensures
        states[j].next(events[j]).1 != DriveAction::GoAway,
{
    assert(states[i + 1] == states[i].next(events[i]).0);
    asks_no_more(states, events, i + 1, j);
    assert(states[j].expects(events[j]));
}

proof fn asks_no_more(states: Seq<Drive>, events: Seq<DriveEvent>, from: int, to: int)
    requires
        is_drive(states, events),
        0 <= from <= to < states.len(),
        states[from].going_away,
        states[from].stage != DriveStage::AskingShutdown,
    ensures
        states[to].going_away,
        states[to].stage != DriveStage::AskingShutdown,
    decreases to - from,
{
    if from < to {
        assert(states[from].expects(events[from]));
        assert(states[from + 1] == states[from].next(events[from]).0);
        asks_no_more(states, events, from + 1, to);
    }
}

/// A connection ends in order only when nothing is outstanding and everything
/// serialized has been written, and, unless a server's peer is gone, when the
/// session expects no frame and has none to send. This holds also after it was
/// asked to shut down: open streams are served to their end.
pub proof fn a_connection_ends_drained(state: Drive, event: DriveEvent)
    requires
        state.expects(event),
        state.next(event).1 == DriveAction::Finish,
    ensures
        event matches DriveEvent::Assessed(at) && at.idle && at.out_empty && (state.is_server
            && state.closing || !at.want_read && !at.want_write),
{
}

/// The task parks only behind a pass in which nothing moved.
pub proof fn a_pass_that_moved_is_followed_by_another(state: Drive, event: DriveEvent)
    requires
        state.expects(event),
        state.next(event).1 == DriveAction::Park,
    ensures
        !state.progressed,
{
}

/// A pass takes responses or requests, handles actions, pumps bodies, reports
/// what was read, keeps alive where it is to, asks for a shutdown where one may
/// come, serializes, writes, reads where it may, and looks at where it stands,
/// in this order. A ping that was not answered, frames that cannot be
/// serialized, a write that failed and a read that failed end the connection
/// with an error, and nothing else does.
pub proof fn a_pass_keeps_its_order(event: DriveEvent)
    ensures
        forall|drive: &mut Drive, r: DriveAction| #[trigger]
            call_ensures(Drive::step, (drive, event), r) ==> {
                let shutdown_next = drive.shutdown && !drive.going_away;
                let after_keepalive = if shutdown_next {
                    DriveAction::PollShutdown
                } else {
                    DriveAction::FillOut
                };
                let first = if drive.is_server {
                    DriveAction::TakeResponses
                } else {
                    DriveAction::TakeRequests
                };
                &&& event is Responses || event is Requests ==> r == DriveAction::HandleActions
                &&& event is Handled ==> r == DriveAction::PumpBodies
                &&& event is Bodies ==> r == DriveAction::ForwardConsume
                &&& event is Consumed && drive.keepalive ==> r == DriveAction::PollKeepAlive
                &&& event is Consumed && !drive.keepalive ==> r == after_keepalive
                &&& event is PingSubmitted ==> r == after_keepalive
                &&& event is GoneAway ==> r == DriveAction::FillOut
                &&& event is Noted ==> r == DriveAction::Assess
                &&& match event {
                    DriveEvent::KeepAlive(Tick::Idle) => r == after_keepalive,
                    DriveEvent::KeepAlive(Tick::SendPing(payload)) => r == DriveAction::SubmitPing(
                        payload,
                    ),
                    DriveEvent::KeepAlive(Tick::TimedOut) => r == DriveAction::Fail(
                        Error { kind: Kind::KeepAliveTimedOut },
                    ),
                    DriveEvent::Shutdown(wanted) => r == if wanted {
                        DriveAction::GoAway
                    } else {
                        DriveAction::FillOut
                    },
                    DriveEvent::Filled(Ok(n)) => r == DriveAction::Flush,
                    DriveEvent::Filled(Err(error)) => r == DriveAction::Fail(error),
                    DriveEvent::Flushed { before, after, failed } => r == if failed {
                        DriveAction::Fail(Error { kind: Kind::Session(Reason(2)) })
                    } else {
                        DriveAction::AskRead
                    },
                    DriveEvent::ReadAsked { session_wants, unsent } => r == if session_wants
                        && unsent < 1048576 {
                        DriveAction::Read
                    } else {
                        DriveAction::Assess
                    },
                    DriveEvent::Read(Ok(ReadStep::Fed(n))) => r == if drive.keepalive {
                        DriveAction::NoteActivity
                    } else {
                        DriveAction::Assess
                    },
                    DriveEvent::Read(Ok(_)) => r == DriveAction::Assess,
                    DriveEvent::Read(Err(error)) => r == DriveAction::Fail(error),
                    _ => true,
                }
                &&& event is Woken ==> r == first
                &&& event is Assessed ==> r == DriveAction::Finish || r == DriveAction::Park || r
                    == first
            },
{
}

/// A connection is over exactly where nothing is outstanding, everything
/// serialized has been written, and the session neither expects a frame nor has
/// one to send; for a server it is enough that the peer has closed its side, and
/// a client goes on until nobody can ask for more. Otherwise a pass in which
/// something moved is followed by another, and one in which nothing moved by
/// waiting.
pub proof fn a_connection_is_over_when_all_is_done(at: Standing)
    ensures
        forall|drive: &mut Drive, r: DriveAction| #[trigger]
            call_ensures(Drive::step, (drive, DriveEvent::Assessed(at)), r) ==> {
                let still = at.idle && at.out_empty;
                let silent = !at.want_read && !at.want_write;
                let over = still && (if drive.is_server {
                    silent || drive.closing
                } else {
                    silent && drive.closing
                });
                &&& r == DriveAction::Finish <==> over
                &&& r == DriveAction::Park <==> !over && !drive.progressed
                &&& r == DriveAction::TakeResponses <==> !over && drive.progressed
                    && drive.is_server
                &&& r == DriveAction::TakeRequests <==> !over && drive.progressed
                    && !drive.is_server
                &&& final(drive).closing == drive.closing
            },
{
}

/// Something has moved in a pass exactly where a response, a request or an
/// action was handled, a body gave something, a ping or the word that the
/// connection goes away went out, bytes were serialized or written, or bytes
/// were read. A new pass begins with nothing moved.
pub proof fn what_moved_is_remembered(event: DriveEvent)
    ensures
        forall|drive: &mut Drive, r: DriveAction| #[trigger]
            call_ensures(Drive::step, (drive, event), r) && !(r is TakeResponses) && !(r
                is TakeRequests) ==> {
                let moved = match event {
                    DriveEvent::Responses(n) => n > 0,
                    DriveEvent::Requests(n, _) => n > 0,
                    DriveEvent::Handled(n) => n > 0,
                    DriveEvent::Bodies(gave) => gave,
                    DriveEvent::KeepAlive(tick) => tick is SendPing,
                    DriveEvent::Shutdown(wanted) => wanted,
                    DriveEvent::Filled(filled) => filled matches Ok(n) && n > 0,
                    DriveEvent::Flushed { before, after, failed } => !failed && after < before,
                    DriveEvent::Read(step) => step matches Ok(step) && step is Fed,
                    _ => false,
                };
                final(drive).progressed == (drive.progressed || moved)
            },
        forall|drive: &mut Drive, r: DriveAction| #[trigger]
            call_ensures(Drive::step, (drive, event), r) && (r is TakeResponses || r
                is TakeRequests) ==> !final(drive).progressed,
{
}

/// A connection closes once the peer has closed its side or no more requests
/// can come, and it goes away once it was asked to, which is then not asked
/// again. Nothing undoes either, and nothing else changes what the loop is.
pub proof fn closing_is_not_undone(event: DriveEvent)
    ensures
        forall|drive: &mut Drive, r: DriveAction| #[trigger]
            call_ensures(Drive::step, (drive, event), r) ==> {
                let ended = match event {
                    DriveEvent::Requests(_, ended) => ended,
                    DriveEvent::Read(step) => step == Ok::<ReadStep, Error>(ReadStep::Eof),
                    _ => false,
                };
                let asked = event == DriveEvent::Shutdown(true);
                &&& final(drive).closing == (drive.closing || ended)
                &&& final(drive).going_away == (drive.going_away || asked)
                &&& final(drive).shutdown == (drive.shutdown && !asked)
                &&& final(drive).is_server == drive.is_server
                &&& final(drive).keepalive == drive.keepalive
            },
{
}

/// The outcome of the action that a step gives is what the next step expects;
/// once the connection is over or has failed, nothing is.
pub proof fn a_step_expects_its_outcome(event: DriveEvent, next: DriveEvent)
    ensures
        forall|drive: &mut Drive, r: DriveAction| #[trigger]
            call_ensures(Drive::step, (drive, event), r) ==> final(drive).expects(next) == match r {
                DriveAction::TakeResponses => next is Responses && drive.is_server,
                DriveAction::TakeRequests => next is Requests && !drive.is_server,
                DriveAction::HandleActions => next is Handled,
                DriveAction::PumpBodies => next is Bodies,
                DriveAction::ForwardConsume => next is Consumed,
                DriveAction::PollKeepAlive => next is KeepAlive,
                DriveAction::SubmitPing(_) => next is PingSubmitted,
                DriveAction::PollShutdown => next is Shutdown,
                DriveAction::GoAway => next is GoneAway,
                DriveAction::FillOut => next is Filled,
                DriveAction::Flush => next is Flushed,
                DriveAction::AskRead => next is ReadAsked,
                DriveAction::Read => next is Read,
                DriveAction::NoteActivity => next is Noted,
                DriveAction::Assess => next is Assessed,
                DriveAction::Park => next is Woken,
                DriveAction::Finish => false,
                DriveAction::Fail(_) => false,
            },
{
}

/// A server's loop begins with its responses and may be asked to shut down; a
/// client's begins with its requests, is not pinged, and is not asked.
pub proof fn a_loop_begins_afresh(keepalive: bool)
    ensures
        forall|r: (Drive, DriveAction)| #[trigger]
            call_ensures(Drive::server, (keepalive,), r) ==> {
                &&& r.1 == DriveAction::TakeResponses
                &&& r.0.is_server && r.0.keepalive == keepalive && r.0.shutdown
                &&& !r.0.closing && !r.0.going_away && !r.0.progressed
                &&& r.0.expects(DriveEvent::Responses(0))
            },
        forall|r: (Drive, DriveAction)| #[trigger]
            call_ensures(Drive::client, (), r) ==> {
                &&& r.1 == DriveAction::TakeRequests
                &&& !r.0.is_server && !r.0.keepalive && !r.0.shutdown
                &&& !r.0.closing && !r.0.going_away && !r.0.progressed
                &&& r.0.expects(DriveEvent::Requests(0, false))
            },
{
}

} // verus!
