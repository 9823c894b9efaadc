//! Feeds connections received over the DMA path into the outbound stack.
//!
//! The acceptor consumes the driver's events. On each ready connection it
//! makes an endpoint, registers it with the driver, and then either publishes
//! the endpoint as a backend channel or serves it through the outbound stack
//! on a task of its own. The acceptor owns those tasks: every one of them is
//! filed under the session that opened it, so a close cancels exactly the task
//! it belongs to and a slot handed out again cannot cancel its successor.
use vstd::prelude::*;

use crate::backend::{changes, BackendKey, Backends, Change, PublishError};
use crate::metrics::{count_by, counted_by, move_by, moved_by, SessionMetrics};
use crate::net::SocketAddr;
use crate::session::{DmeshEvent, FlowId, SessionToken};
use crate::table::Table;

verus! {

/// Server-side target for a connection that came over DMA.
#[derive(Debug)]
pub struct DmeshTarget {
    pub orig_dst: SocketAddr,
    pub client: SocketAddr,
    pub session: SessionToken,
    /// Workload identity granted with the frontend's registration. One proxy
    /// serves many workloads, so this cannot be the process-wide one.
    pub policy_workload: String,
}

impl DmeshTarget {
    pub fn new(flow: &FlowId, session: SessionToken) -> (r: Self)
        ensures
            r.orig_dst == SocketAddr::V4(flow.dst),
            r.client == SocketAddr::V4(flow.src),
            r.session == session,
            r.policy_workload@ == flow.workload@,
    {
        DmeshTarget {
            orig_dst: SocketAddr::V4(flow.dst),
            client: SocketAddr::V4(flow.src),
            session,
            policy_workload: flow.workload.clone(),
        }
    }

    pub fn policy_workload(&self) -> (r: &String)
        ensures
            *r == self.policy_workload,
    {
        &self.policy_workload
    }

    /// The client's and the server's address.
    pub fn addr_pair(&self) -> (r: (SocketAddr, SocketAddr))
        ensures
            r == (self.client, self.orig_dst),
    {
        (self.client, self.orig_dst)
    }
}

/// How the task counters move.
#[derive(Clone, Copy, Debug, PartialEq, Eq, Structural)]
pub struct TaskCounts {
    /// Added to the number of live tasks.
    pub live: i64,
    /// Added to the number of tasks that a close cancelled.
    pub cancelled: u64,
}

impl TaskCounts {
    /// Move the counters.
    pub fn record(&self, metrics: &SessionMetrics)
        ensures
            moved_by(metrics.tasks_live, self.live),
            counted_by(metrics.tasks_cancelled, self.cancelled),
    {
        move_by(&metrics.tasks_live, self.live);
        count_by(&metrics.tasks_cancelled, self.cancelled);
    }
}

/// What a session leaves when it is closed.
#[derive(Debug)]
pub struct Closed<J, C> {
    /// The channel that was withdrawn before any connector took it.
    pub withdrawn: Option<C>,
    /// The task, to be joined.
    pub task: Option<J>,
    /// The task has not ended on its own and is to be cancelled.
    pub cancel: bool,
    pub counts: TaskCounts,
}

/// Connection tasks the acceptor owns, and the backend channels it published.
#[derive(Debug)]
pub struct Sessions<J> {
    pub tasks: Table<SessionToken, J>,
    pub backends: Table<SessionToken, BackendKey>,
}

/// What the acceptor is told.
#[derive(Debug)]
pub enum AcceptInput {
    Shutdown,
    /// The driver sends no more events.
    EventsEnded,
    /// A task reported its own completion.
    Finished(SessionToken),
    /// A cancelled or finished task was joined.
    Joined,
    Event(DmeshEvent),
}

/// What the acceptor does next.
#[derive(Debug)]
pub enum AcceptAction<J, C> {
    /// Cancel every task and return.
    Stop,
    Wait,
    /// Make an endpoint for the flow, register it with the driver, and say how it went.
    Register(SessionToken, FlowId),
    /// Join what the session left.
    Reap(Closed<J, C>),
    /// Report the datapath's counters.
    Report(DmeshEvent),
}

/// What becomes of a connection that is ready.
#[derive(Debug)]
pub enum Admission {
    /// The driver is gone.
    Stop,
    /// Its channel is on offer.
    Published,
    /// Another session's channel holds the key.
    Refused(PublishError),
    /// Serve it, and track the task.
    Serve(DmeshTarget),
}

/// The registry without the entry that `key` names, if it holds one.
pub open spec fn withdraws<C, R>(
    before: Backends<C, R>,
    after: Backends<C, R>,
    key: BackendKey,
    io: Option<C>,
) -> bool {
    let i = before.at(key.session);
    &&& after == (Backends { entries: after.entries, ..before })
    &&& if before.published(key.session) && before.entries@[i].service == key.service {
        io == before.entries@[i].io && after.entries@ == before.entries@.remove(i)
    } else {
        io is None && after.entries@ == before.entries@
    }
}

/// Everything on offer was published by this acceptor, which knows it by the
/// key it was published under.
pub open spec fn owns<J, C, R>(sessions: Sessions<J>, registry: Backends<C, R>) -> bool {
    forall|token: SessionToken| #[trigger]
        registry.published(token) ==> sessions.backends@.contains_key(token)
            && registry.entries@[registry.at(token)].service == sessions.backends@[token].service
}

/// A step that moved the number of live tasks by `live`, and left an acceptor
/// that owned everything on offer owning it.
pub open spec fn accounted<J, C, R>(
    before: Sessions<J>,
    registry: Backends<C, R>,
    after: Sessions<J>,
    registry_after: Backends<C, R>,
    live: int,
) -> bool {
    &&& after.tasks.items@.len() == before.tasks.items@.len() + live
    &&& owns(before, registry) ==> owns(after, registry_after)
}

impl<J> Sessions<J> {
    /// A published key is filed under its own session.
    pub open spec fn wf(self) -> bool {
        &&& self.tasks.wf()
        &&& self.backends.wf()
        &&& forall|token: SessionToken| #[trigger]
            self.backends@.contains_key(token) ==> self.backends@[token].session == token
    }

    pub fn new() -> (r: Self)
        ensures
            r.wf(),
            r.tasks@ == Map::<SessionToken, J>::empty(),
            r.backends@ == Map::<SessionToken, BackendKey>::empty(),
    {
        Sessions { tasks: Table::new(), backends: Table::new() }
    }

    /// Own the task of a session. A task that is returned was filed under the
    /// same token; it has no owner left and is to be cancelled and joined.
    pub fn track(&mut self, token: SessionToken, task: J) -> (r: (Option<J>, TaskCounts))
        requires
            old(self).wf(),
        ensures
            final(self).wf(),
            final(self).tasks@ == old(self).tasks@.insert(token, task),
            final(self).backends == old(self).backends,
            r.0 is Some <==> old(self).tasks@.contains_key(token),
            r.0 matches Some(previous) ==> previous == old(self).tasks@[token],
            r.1 == (TaskCounts {
                live: if r.0 is Some {
                    0
                } else {
                    1
                },
                cancelled: 0,
            }),
            final(self).tasks.items@.len() == old(self).tasks.items@.len() + r.1.live,
    {
        let previous = self.tasks.insert(token, task);
        let live: i64 = if previous.is_some() {
            0
        } else {
            1
        };
        (previous, TaskCounts { live, cancelled: 0 })
    }

    /// Stop one session: evict its backend channel and give up its task. Only
    /// the exact token is removed. `is_finished` says whether a task has ended.
    pub fn close<C, R, F: Fn(&J) -> bool>(
        &mut self,
        registry: &mut Backends<C, R>,
        token: SessionToken,
        is_finished: &F,
    ) -> (r: Closed<J, C>)
        requires
            old(self).wf(),
            old(registry).wf(),
            forall|task: J| is_finished.requires((&task,)),
        ensures
            final(self).wf(),
            final(registry).wf(),
            final(self).tasks@ == old(self).tasks@.remove(token),
            final(self).backends@ == old(self).backends@.remove(token),
            old(self).backends@.contains_key(token) ==> withdraws(
                *old(registry),
                *final(registry),
                old(self).backends@[token],
                r.withdrawn,
            ),
            !old(self).backends@.contains_key(token) ==> *final(registry) == *old(registry)
                && r.withdrawn is None,
            r.task is Some <==> old(self).tasks@.contains_key(token),
            r.task matches Some(task) ==> task == old(self).tasks@[token]
                && is_finished.ensures((&task,), !r.cancel),
            r.task is None ==> !r.cancel,
            r.counts == task_counts(r),
            final(self).tasks.items@.len() == old(self).tasks.items@.len() + r.counts.live,
            final(self).backends.items@.len() == old(self).backends.items@.len() - if old(
                self,
            ).backends@.contains_key(token) {
                1int
            } else {
                0
            },
            accounted(
                *old(self),
                *old(registry),
                *final(self),
                *final(registry),
                r.counts.live as int,
            ),
    {
        let withdrawn = match self.backends.remove(&token) {
            Some(key) => registry.remove(&key),
            None => None,
        };
        proof {
            close_keeps_owning(*old(self), *old(registry), *self, *registry, token, withdrawn);
        }
        match self.tasks.remove(&token) {
            Some(task) => {
                let cancel: bool = !is_finished(&task);
                let cancelled: u64 = if cancel {
                    1
                } else {
                    0
                };
                Closed {
                    withdrawn,
                    task: Some(task),
                    cancel,
                    counts: TaskCounts { live: -1, cancelled },
                }
            },
            None => Closed {
                withdrawn,
                task: None,
                cancel: false,
                counts: TaskCounts { live: 0, cancelled: 0 },
            },
        }
    }

    /// A task reported its own completion: it is joined and no longer owned. A
    /// completion names one generation; a later session holding the same slot
    /// keeps its task.
    pub fn finished<C>(&mut self, token: SessionToken) -> (r: Closed<J, C>)
        requires
            old(self).wf(),
        ensures
            final(self).wf(),
            final(self).tasks@ == old(self).tasks@.remove(token),
            final(self).backends == old(self).backends,
            r.withdrawn is None,
            r.task is Some <==> old(self).tasks@.contains_key(token),
            r.task matches Some(task) ==> task == old(self).tasks@[token],
            !r.cancel,
            r.counts == task_counts(r),
            final(self).tasks.items@.len() == old(self).tasks.items@.len() + r.counts.live,
    {
        let task = self.tasks.remove(&token);
        let live: i64 = if task.is_some() {
            -1
        } else {
            0
        };
        Closed { withdrawn: None, task, cancel: false, counts: TaskCounts { live, cancelled: 0 } }
    }

    /// Offer a session's endpoint as the channel of its service.
    pub fn publish_backend<C, R>(
        &mut self,
        registry: &mut Backends<C, R>,
        key: BackendKey,
        io: C,
    ) -> (r: Result<(), PublishError>)
        requires
            old(self).wf(),
            old(registry).wf(),
        ensures
            final(self).wf(),
            final(registry).wf(),
            final(self).tasks == old(self).tasks,
            r is Err <==> old(registry).published(key.session),
            r matches Err(e) ==> e == PublishError::AlreadyLive && *final(registry) == *old(
                registry,
            ) && *final(self) == *old(self),
            r is Ok ==> final(self).backends@ == old(self).backends@.insert(key.session, key)
                && final(registry).entries@ == old(registry).entries@.push(
                crate::backend::Entry { session: key.session, service: key.service, io: Some(io) },
            ) && *final(registry) == (Backends {
                entries: final(registry).entries,
                ..*old(registry)
            }),
            accounted(*old(self), *old(registry), *final(self), *final(registry), 0),
    {
        match registry.publish(key, io) {
            Ok(()) => {
                let _ = self.backends.insert(key.session, key);
                proof {
                    let entry = registry.entries@.last();
                    assert forall|token: SessionToken|
                        owns(*old(self), *old(registry)) && #[trigger] registry.published(
                            token,
                        ) implies self.backends@.contains_key(token)
                        && registry.entries@[registry.at(token)].service
                        == self.backends@[token].service by {
                        crate::backend::offered_at_the_end(old(registry).entries@, entry, token);
                        assert(registry.entries@ =~= old(registry).entries@.push(entry));
                        if token != key.session {
                            assert(old(registry).published(token));
                        }
                    }
                }
                Ok(())
            },
            Err(error) => Err(error),
        }
    }

    /// Take what came, and say what is next.
    pub fn accept<C, R, F: Fn(&J) -> bool>(
        &mut self,
        registry: &mut Backends<C, R>,
        input: AcceptInput,
        is_finished: &F,
    ) -> (r: AcceptAction<J, C>)
        requires
            old(self).wf(),
            old(registry).wf(),
            forall|task: J| is_finished.requires((&task,)),
        ensures
            final(self).wf(),
            final(registry).wf(),
            match input {
                AcceptInput::Shutdown => r is Stop,
                AcceptInput::EventsEnded => r is Stop,
                AcceptInput::Joined => r is Wait,
                AcceptInput::Finished(token) => {
                    &&& final(self).tasks@ == old(self).tasks@.remove(token)
                    &&& final(self).backends == old(self).backends
                    &&& r matches AcceptAction::Reap(closed) && !closed.cancel && (closed.task
                        is Some <==> old(self).tasks@.contains_key(token)) && (closed.task
                        matches Some(task) ==> task == old(self).tasks@[token])
                        && closed.withdrawn is None && closed.counts == task_counts(closed)
                },
                AcceptInput::Event(DmeshEvent::ConnReady(token, flow)) => r
                    == AcceptAction::<J, C>::Register(token, flow),
                AcceptInput::Event(DmeshEvent::InfraReady) => r is Wait,
                AcceptInput::Event(DmeshEvent::ConnClosed(token)) => closes(
                    *old(self),
                    *final(self),
                    *old(registry),
                    *final(registry),
                    token,
                    r,
                ),
                AcceptInput::Event(DmeshEvent::ConnError(token)) => closes(
                    *old(self),
                    *final(self),
                    *old(registry),
                    *final(registry),
                    token,
                    r,
                ),
                AcceptInput::Event(stats) => r == AcceptAction::<J, C>::Report(stats),
            },
            !(input matches AcceptInput::Event(DmeshEvent::ConnClosed(_))) && !(input
                matches AcceptInput::Event(DmeshEvent::ConnError(_))) ==> *final(registry) == *old(
                registry,
            ),
            !(r is Reap) ==> *final(self) == *old(self),
            accounted(
                *old(self),
                *old(registry),
                *final(self),
                *final(registry),
                match r {
                    AcceptAction::Reap(closed) => closed.counts.live as int,
                    _ => 0,
                },
            ),
            // Only a task that has not ended is cancelled.
            !(input is Finished) ==> (r matches AcceptAction::Reap(closed) ==> (closed.task
                matches Some(task) ==> is_finished.ensures((&task,), !closed.cancel))),
    {
        match input {
            AcceptInput::Shutdown => AcceptAction::Stop,
            AcceptInput::EventsEnded => AcceptAction::Stop,
            AcceptInput::Joined => AcceptAction::Wait,
            AcceptInput::Finished(token) => AcceptAction::Reap(self.finished(token)),
            AcceptInput::Event(event) => match event {
                DmeshEvent::ConnReady(token, flow) => AcceptAction::Register(token, flow),
                DmeshEvent::InfraReady => AcceptAction::Wait,
                DmeshEvent::ConnClosed(token) => AcceptAction::Reap(
                    self.close(registry, token, is_finished),
                ),
                DmeshEvent::ConnError(token) => AcceptAction::Reap(
                    self.close(registry, token, is_finished),
                ),
                DmeshEvent::Stats {
                    elapsed_ms,
                    recv_msgs,
                    recv_bytes,
                    sent_msgs,
                    dma_pending,
                    dma_dropped,
                } => AcceptAction::Report(
                    DmeshEvent::Stats {
                        elapsed_ms,
                        recv_msgs,
                        recv_bytes,
                        sent_msgs,
                        dma_pending,
                        dma_dropped,
                    },
                ),
            },
        }
    }

    /// Place a ready connection whose endpoint is `io`. `registered` says
    /// whether the driver took the registration.
    ///
    /// A backend connection is not an inbound flow: the host end provides the
    /// service at the flow's destination, and the outbound connector picks the
    /// endpoint up from the registry. There is nothing to serve.
    pub fn ready<C, R>(
        &mut self,
        registry: &mut Backends<C, R>,
        token: SessionToken,
        flow: &FlowId,
        io: C,
        registered: bool,
    ) -> (r: (Admission, Option<C>))
        requires
            old(self).wf(),
            old(registry).wf(),
        ensures
            final(self).wf(),
            final(registry).wf(),
            final(self).tasks == old(self).tasks,
            accounted(*old(self), *old(registry), *final(self), *final(registry), 0),
            if !registered {
                r.0 is Stop && r.1 is None && *final(self) == *old(self) && *final(registry)
                    == *old(registry)
            } else if flow.is_backend {
                let key = BackendKey {
                    worker: token.worker,
                    service: SocketAddr::V4(flow.dst),
                    session: token,
                };
                &&& r.1 is None
                &&& if old(registry).published(token) {
                    r.0 == Admission::Refused(PublishError::AlreadyLive) && *final(self) == *old(
                        self,
                    ) && *final(registry) == *old(registry)
                } else {
                    &&& r.0 is Published
                    &&& final(self).backends@ == old(self).backends@.insert(token, key)
                    &&& final(registry).entries@ == old(registry).entries@.push(
                        crate::backend::Entry {
                            session: token,
                            service: SocketAddr::V4(flow.dst),
                            io: Some(io),
                        },
                    )
                    &&& *final(registry) == (Backends {
                        entries: final(registry).entries,
                        ..*old(registry)
                    })
                }
            } else {
                &&& r.0 matches Admission::Serve(target) && target.orig_dst == SocketAddr::V4(
                    flow.dst,
                ) && target.client == SocketAddr::V4(flow.src) && target.session == token
                    && target.policy_workload@ == flow.workload@
                &&& r.1 == Some(io)
                &&& *final(self) == *old(self)
                &&& *final(registry) == *old(registry)
            },
    {
        if !registered {
            return (Admission::Stop, None);
        }
        if flow.is_backend {
            let key = BackendKey::new(SocketAddr::V4(flow.dst), token);
            return match self.publish_backend(registry, key, io) {
                Ok(()) => (Admission::Published, None),
                Err(error) => (Admission::Refused(error), None),
            };
        }
        (Admission::Serve(DmeshTarget::new(flow, token)), Some(io))
    }

    /// Close every session. Backend endpoints have a registry entry but no
    /// task; both tables are emptied, so ending the event stream withdraws
    /// every endpoint rather than leaving a taken or published channel behind.
    pub fn drain<C, R, F: Fn(&J) -> bool>(
        &mut self,
        registry: &mut Backends<C, R>,
        is_finished: &F,
    ) -> (r: Vec<Closed<J, C>>)
        requires
            old(self).wf(),
            old(registry).wf(),
            forall|task: J| is_finished.requires((&task,)),
        ensures
            final(self).wf(),
            final(registry).wf(),
            final(self).tasks@ == Map::<SessionToken, J>::empty(),
            final(self).backends@ == Map::<SessionToken, BackendKey>::empty(),
            // Every task that was owned is handed back, and cancelled unless it has ended.
            live_sum(r@) == -(old(self).tasks.items@.len() as int),
            forall|token: SessionToken| #[trigger]
                old(self).tasks@.contains_key(token) ==> handed_back(
                    r@,
                    old(self).tasks@[token],
                ),
            forall|i: int|
                0 <= i < r@.len() ==> {
                    &&& (#[trigger] r@[i]).counts == task_counts(r@[i])
                    &&& r@[i].task is None ==> !r@[i].cancel
                    &&& r@[i].task matches Some(task) ==> is_finished.ensures(
                        (&task,),
                        !r@[i].cancel,
                    )
                },
            // What others published stays as it was.
            forall|token: SessionToken|
                !(#[trigger] old(self).backends@.contains_key(token)) ==> same_entry(
                    *old(registry),
                    *final(registry),
                    token,
                ),
            // Nothing this acceptor published stays on offer.
            forall|token: SessionToken| #[trigger]
                old(self).backends@.contains_key(token) && old(registry).published(token) && old(
                    registry,
                ).entries@[old(registry).at(token)].service == old(self).backends@[token].service
                    ==> !final(registry).published(token),
            accounted(*old(self), *old(registry), *final(self), *final(registry), live_sum(r@)),
            owns(*old(self), *old(registry)) ==> final(registry).entries@.len() == 0,
    {
        let mut closed: Vec<Closed<J, C>> = Vec::new();
        let ghost first = *registry;
        loop
            invariant
                self.wf(),
                registry.wf(),
                forall|task: J| is_finished.requires((&task,)),
                live_sum(closed@) + old(self).tasks.items@.len() == self.tasks.items@.len(),
                owns(*old(self), first) ==> owns(*self, *registry),
                first == *old(registry),
                drained_so_far(*old(self), *self, first, *registry),
                forall|i: int|
                    0 <= i < closed@.len() ==> {
                        &&& (#[trigger] closed@[i]).counts == task_counts(closed@[i])
                        &&& closed@[i].task is None ==> !closed@[i].cancel
                        &&& closed@[i].task matches Some(task) ==> is_finished.ensures(
                            (&task,),
                            !closed@[i].cancel,
                        )
                    },
                forall|token: SessionToken| #[trigger]
                    old(self).tasks@.contains_key(token) ==> handed_back(
                        closed@,
                        old(self).tasks@[token],
                    ) || (self.tasks@.contains_key(token) && self.tasks@[token] == old(
                        self,
                    ).tasks@[token]),
                forall|token: SessionToken| #[trigger]
                    self.backends@.contains_key(token) ==> old(self).backends@.contains_key(token),
                forall|token: SessionToken|
                    !(#[trigger] old(self).backends@.contains_key(token)) ==> same_entry(
                        first,
                        *registry,
                        token,
                    ),
            ensures
                self.tasks.items@.len() == 0,
                self.backends.items@.len() == 0,
            decreases self.tasks.items@.len() + self.backends.items@.len(),
        {
            let next = match self.tasks.first() {
                Some(token) => Some(token),
                None => self.backends.first(),
            };
            let token: SessionToken = match next {
                Some(token) => token,
                None => break,
            };
            let ghost before = *self;
            let ghost reg_before = *registry;
            let ghost closed_before = closed@;
            let one = self.close(registry, token, is_finished);
            closed.push(one);
            proof {
                assert(closed@.drop_last() =~= closed_before);
                drains_one(*old(self), before, *self, first, reg_before, *registry, token);
                assert forall|t: SessionToken| #[trigger]
                    old(self).tasks@.contains_key(t) implies handed_back(
                    closed@,
                    old(self).tasks@[t],
                ) || (self.tasks@.contains_key(t) && self.tasks@[t] == old(self).tasks@[t]) by {
                    let task = old(self).tasks@[t];
                    if handed_back(closed_before, task) {
                        let i = choose|i: int|
                            0 <= i < closed_before.len() && (#[trigger] closed_before[i]).task
                                == Some(task);
                        assert(closed@[i].task == Some(task));
                    } else if t == token {
                        assert(closed@[closed_before.len() as int].task == Some(task));
                    }
                }
                assert forall|t: SessionToken|
                    !(#[trigger] old(self).backends@.contains_key(t)) implies same_entry(
                    first,
                    *registry,
                    t,
                ) by {
                    if before.backends@.contains_key(token) {
                        assert(t != token);
                        let key = before.backends@[token];
                        if reg_before.published(token) && reg_before.entries@[reg_before.at(
                            token,
                        )].service == key.service {
                            crate::backend::a_removal_evicts_only_itself(
                                reg_before,
                                *registry,
                                token,
                                t,
                            );
                        }
                    }
                }
            }
        }
        proof {
            crate::table::empty_table(self.tasks.items@);
            crate::table::empty_table(self.backends.items@);
            if owns(*old(self), *old(registry)) && registry.entries@.len() > 0 {
                assert(registry.published(registry.entries@[0].session));
            }
        }
        closed
    }
}

/// A close takes what the session published off the registry.
proof fn close_keeps_owning<J, C, R>(
    before: Sessions<J>,
    registry: Backends<C, R>,
    after: Sessions<J>,
    registry_after: Backends<C, R>,
    token: SessionToken,
    io: Option<C>,
)
    requires
        before.wf(),
        registry.wf(),
        after.backends@ == before.backends@.remove(token),
        before.backends@.contains_key(token) ==> withdraws(
            registry,
            registry_after,
            before.backends@[token],
            io,
        ),
        !before.backends@.contains_key(token) ==> registry_after == registry,
    ensures
        owns(before, registry) ==> owns(after, registry_after),
{
    if owns(before, registry) {
        assert forall|other: SessionToken| #[trigger]
            registry_after.published(other) implies after.backends@.contains_key(other)
            && registry_after.entries@[registry_after.at(other)].service
            == after.backends@[other].service by {
            if before.backends@.contains_key(token) {
                let key = before.backends@[token];
                assert(key.session == token);
                let evicts = registry.published(token) && registry.entries@[registry.at(
                    token,
                )].service == key.service;
                if evicts {
                    let spared = if other == token {
                        SessionToken {
                            generation: if token.generation == 0 {
                                1
                            } else {
                                0
                            },
                            ..token
                        }
                    } else {
                        other
                    };
                    crate::backend::a_removal_evicts_only_itself(
                        registry,
                        registry_after,
                        token,
                        spared,
                    );
                } else {
                    assert(registry_after.entries@ == registry.entries@);
                    assert(registry.published(other));
                }
                assert(registry.published(other));
            } else {
                assert(registry.published(other));
            }
        }
    }
}

/// How the number of live tasks moves over a run.
pub open spec fn moves_sum(moves: Seq<int>) -> int
    decreases moves.len(),
{
    if moves.len() == 0 {
        0
    } else {
        moves_sum(moves.drop_last()) + moves.last()
    }
}

/// A run of an acceptor: `moves[k]` is how the call on `states[k]` moved the
/// number of live tasks. A channel may be taken between two calls of the
/// acceptor; that is a step that moves nothing.
pub open spec fn is_run<J, C, R>(states: Seq<(Sessions<J>, Backends<C, R>)>, moves: Seq<int>) -> bool {
    &&& states.len() == moves.len() + 1
    &&& forall|k: int|
        0 <= k < moves.len() ==> accounted(
            states[k].0,
            states[k].1,
            states[k + 1].0,
            states[k + 1].1,
            #[trigger] moves[k],
        )
}

/// A call that neither publishes nor evicts, such as a take, leaves an acceptor
/// owning what is on offer.
pub proof fn a_take_is_accounted<J, C, R>(
    sessions: Sessions<J>,
    registry: Backends<C, R>,
    registry_after: Backends<C, R>,
)
    requires
        changes(registry, registry_after, Change::Nothing),
    ensures
        accounted(sessions, registry, sessions, registry_after, 0),
{
    assert forall|token: SessionToken|
        owns(sessions, registry) && #[trigger] registry_after.published(
            token,
        ) implies sessions.backends@.contains_key(token)
        && registry_after.entries@[registry_after.at(token)].service
        == sessions.backends@[token].service by {
        crate::backend::offers_stay(registry.entries@, registry_after.entries@, token);
        assert(registry.published(token));
    }
}

proof fn a_run_is_accounted<J, C, R>(states: Seq<(Sessions<J>, Backends<C, R>)>, moves: Seq<int>)
    requires
        is_run(states, moves),
    ensures
        states.last().0.tasks.items@.len() == states[0].0.tasks.items@.len() + moves_sum(moves),
        owns(states[0].0, states[0].1) ==> owns(states.last().0, states.last().1),
    decreases moves.len(),
{
    if moves.len() > 0 {
        let n = moves.len() as int;
        let before = states.drop_last();
        let earlier = moves.drop_last();
        assert forall|k: int| 0 <= k < earlier.len() implies accounted(
            before[k].0,
            before[k].1,
            before[k + 1].0,
            before[k + 1].1,
            #[trigger] earlier[k],
        ) by {
            assert(moves[k] == earlier[k]);
        }
        a_run_is_accounted(before, earlier);
        assert(accounted(
            states[n - 1].0,
            states[n - 1].1,
            states[n - 1 + 1].0,
            states[n - 1 + 1].1,
            moves[n - 1],
        ));
        assert(before.last() == states[n - 1]);
    }
}

/// Over any run of a new acceptor on a registry of its own that ends without a
/// session, as it does once it is drained, the number of live tasks is back
/// where it began and nothing that was published is still on offer.
pub proof fn a_run_ends_where_it_began<J, C, R>(
    states: Seq<(Sessions<J>, Backends<C, R>)>,
    moves: Seq<int>,
)
    requires
        is_run(states, moves),
        states[0].0.tasks.items@.len() == 0,
        states[0].1.entries@.len() == 0,
        states.last().0.tasks.items@.len() == 0,
        states.last().0.backends@ == Map::<SessionToken, BackendKey>::empty(),
    ensures
        moves_sum(moves) == 0,
        states.last().1.entries@.len() == 0,
{
    a_run_is_accounted(states, moves);
    let left = states.last().1;
    if left.entries@.len() > 0 {
        assert(left.published(left.entries@[0].session));
    }
}

/// Whether one of the closes gave up `task`.
pub open spec fn handed_back<J, C>(closed: Seq<Closed<J, C>>, task: J) -> bool {
    exists|i: int| 0 <= i < closed.len() && (#[trigger] closed[i]).task == Some(task)
}

/// What is on offer under `token` is on offer as it was, if anything is.
pub open spec fn same_entry<C, R>(
    before: Backends<C, R>,
    after: Backends<C, R>,
    token: SessionToken,
) -> bool {
    &&& after.published(token) <==> before.published(token)
    &&& before.published(token) ==> after.entries@[after.at(token)] == before.entries@[before.at(
        token,
    )]
}

/// How the number of live tasks moves over several closes.
pub open spec fn live_sum<J, C>(closed: Seq<Closed<J, C>>) -> int
    decreases closed.len(),
{
    if closed.len() == 0 {
        0
    } else {
        live_sum(closed.drop_last()) + closed.last().counts.live
    }
}

/// What closing `token` does, and what it hands back.
pub open spec fn closes<J, C, R>(
    before: Sessions<J>,
    after: Sessions<J>,
    registry: Backends<C, R>,
    registry_after: Backends<C, R>,
    token: SessionToken,
    r: AcceptAction<J, C>,
) -> bool {
    &&& after.tasks@ == before.tasks@.remove(token)
    &&& after.backends@ == before.backends@.remove(token)
    &&& r matches AcceptAction::Reap(closed) && {
        &&& closed.task is Some <==> before.tasks@.contains_key(token)
        &&& closed.task matches Some(task) ==> task == before.tasks@[token]
        &&& before.backends@.contains_key(token) ==> withdraws(
            registry,
            registry_after,
            before.backends@[token],
            closed.withdrawn,
        )
        &&& !before.backends@.contains_key(token) ==> registry_after == registry
            && closed.withdrawn is None
        &&& closed.task is None ==> !closed.cancel
        &&& closed.counts == task_counts(closed)
    }
}

/// A task that is given up is one live task less, and one that is cancelled is
/// one cancellation more.
pub open spec fn task_counts<J, C>(closed: Closed<J, C>) -> TaskCounts {
    TaskCounts {
        live: if closed.task is Some {
            (-1) as i64
        } else {
            0
        },
        cancelled: if closed.cancel {
            1
        } else {
            0
        },
    }
}

/// What was published under a key that has left the table is off the registry,
/// and what was never on it has not appeared.
spec fn drained_so_far<J, C, R>(
    first: Sessions<J>,
    now: Sessions<J>,
    first_registry: Backends<C, R>,
    registry: Backends<C, R>,
) -> bool {
    forall|token: SessionToken| #[trigger]
        first.backends@.contains_key(token) && first_registry.published(token)
            && first_registry.entries@[first_registry.at(token)].service
            == first.backends@[token].service ==> {
            ||| !registry.published(token)
            ||| {
                &&& now.backends@.contains_key(token)
                &&& now.backends@[token] == first.backends@[token]
                &&& registry.entries@[registry.at(token)].service == first.backends@[token].service
            }
        }
}

proof fn drains_one<J, C, R>(
    first: Sessions<J>,
    before: Sessions<J>,
    after: Sessions<J>,
    first_registry: Backends<C, R>,
    registry: Backends<C, R>,
    registry_after: Backends<C, R>,
    token: SessionToken,
)
    requires
        before.wf(),
        registry.wf(),
        drained_so_far(first, before, first_registry, registry),
        after.backends@ == before.backends@.remove(token),
        before.backends@.contains_key(token) ==> exists|io: Option<C>| #[trigger]
            withdraws(registry, registry_after, before.backends@[token], io),
        !before.backends@.contains_key(token) ==> registry_after == registry,
    ensures
        drained_so_far(first, after, first_registry, registry_after),
{
    if before.backends@.contains_key(token) {
        let key = before.backends@[token];
        assert(key.session == token);
        let i = registry.at(token);
        if registry.published(token) && registry.entries@[i].service == key.service {
            assert forall|other: SessionToken| #[trigger]
                first.backends@.contains_key(other) && first_registry.published(other)
                    && first_registry.entries@[first_registry.at(other)].service
                    == first.backends@[other].service implies {
                ||| !registry_after.published(other)
                ||| {
                    &&& after.backends@.contains_key(other)
                    &&& after.backends@[other] == first.backends@[other]
                    &&& registry_after.entries@[registry_after.at(other)].service
                        == first.backends@[other].service
                }
            } by {
                if other == token {
                    let elsewhere = SessionToken {
                        generation: if token.generation == 0 {
                            1
                        } else {
                            0
                        },
                        ..token
                    };
                    crate::backend::a_removal_evicts_only_itself(
                        registry,
                        registry_after,
                        token,
                        elsewhere,
                    );
                } else {
                    crate::backend::a_removal_evicts_only_itself(
                        registry,
                        registry_after,
                        token,
                        other,
                    );
                }
            }
        } else {
            assert(registry_after.entries@ == registry.entries@);
        }
    }
}

/// A close names one session: every other session keeps its task and its
/// channel, a later generation of the same slot too.
pub proof fn a_close_spares_other_sessions<J, C, R>(
    before: Sessions<J>,
    after: Sessions<J>,
    registry: Backends<C, R>,
    registry_after: Backends<C, R>,
    closed: SessionToken,
    other: SessionToken,
    r: AcceptAction<J, C>,
)
    requires
        before.wf(),
        registry.wf(),
        closes(before, after, registry, registry_after, closed, r),
        other != closed,
    ensures
        after.tasks@.contains_key(other) <==> before.tasks@.contains_key(other),
        before.tasks@.contains_key(other) ==> after.tasks@[other] == before.tasks@[other],
        registry_after.published(other) <==> registry.published(other),
        registry.published(other) ==> registry_after.entries@[registry_after.at(other)]
            == registry.entries@[registry.at(other)],
{
    if before.backends@.contains_key(closed) {
        let key = before.backends@[closed];
        if registry.published(closed) && registry.entries@[registry.at(closed)].service
            == key.service {
            crate::backend::a_removal_evicts_only_itself(registry, registry_after, closed, other);
        }
    }
}

/// The flow's destination is what its connection was bound for, its source is
/// the client, and its workload is the one that it is judged by.
pub proof fn a_target_is_its_flow(flow: FlowId, session: SessionToken)
    ensures
        forall|r: DmeshTarget| #[trigger]
            call_ensures(DmeshTarget::new, (&flow, session), r) ==> r.orig_dst == SocketAddr::V4(
                flow.dst,
            ) && r.client == SocketAddr::V4(flow.src) && r.session == session
                && r.policy_workload@ == flow.workload@,
        forall|target: DmeshTarget, r: (SocketAddr, SocketAddr)| #[trigger]
            call_ensures(DmeshTarget::addr_pair, (&target,), r) ==> r.0 == target.client && r.1
                == target.orig_dst,
{
}

/// A task is owned by its session. One that the session already had is given
/// up for it; only a task that takes no other's place is one more.
pub proof fn a_task_is_owned_by_its_session<J>(token: SessionToken, task: J)
    ensures
        forall|sessions: &mut Sessions<J>, r: (Option<J>, TaskCounts)| #[trigger]
            call_ensures(Sessions::<J>::track, (sessions, token, task), r) ==> {
                let had = sessions.tasks@.contains_key(token);
                &&& final(sessions).tasks@ == sessions.tasks@.insert(token, task)
                &&& had ==> r.0 == Some(sessions.tasks@[token]) && r.1.live == 0
                &&& !had ==> r.0 is None && r.1.live == 1
                &&& r.1.cancelled == 0
                &&& final(sessions).backends == sessions.backends
            },
{
}

/// A close ends one session: its task is given up, and cancelled exactly where
/// it has not ended; the channel that it published is withdrawn where it is
/// still its own; a task less is counted for the task, and a cancellation for
/// the cancelled one. Every other session keeps its task and its key.
pub proof fn a_close_ends_one_session<J, C, R, F: Fn(&J) -> bool>(
    token: SessionToken,
    is_finished: F,
    i: int,
)
    ensures
        forall|sessions: &mut Sessions<J>, registry: &mut Backends<C, R>, r: Closed<J, C>| #[trigger]
            call_ensures(
                Sessions::<J>::close::<C, R, F>,
                (sessions, registry, token, &is_finished),
                r,
            ) && sessions.wf() && registry.wf() ==> {
                let had = sessions.tasks@.contains_key(token);
                let key = sessions.backends@[token];
                let entry = registry.entries@[i];
                &&& had ==> r.task == Some(sessions.tasks@[token]) && is_finished.ensures(
                    (&sessions.tasks@[token],),
                    !r.cancel,
                ) && r.counts.live == -1
                &&& !had ==> r.task is None && !r.cancel && r.counts.live == 0
                &&& r.counts.cancelled == (if r.cancel {
                    1int
                } else {
                    0
                })
                &&& final(sessions).tasks@ == sessions.tasks@.remove(token)
                &&& final(sessions).backends@ == sessions.backends@.remove(token)
                &&& sessions.backends@.contains_key(token) && 0 <= i < registry.entries@.len()
                    && entry.session == token && entry.service == key.service ==> r.withdrawn
                    == entry.io && final(registry).entries@ == registry.entries@.remove(i)
                &&& sessions.backends@.contains_key(token) && 0 <= i < registry.entries@.len()
                    && entry.session == token && entry.service != key.service ==> r.withdrawn is None
                    && final(registry).entries@ == registry.entries@
                &&& !sessions.backends@.contains_key(token) ==> r.withdrawn is None
                    && *final(registry) == *registry
                &&& final(registry).placements == registry.placements && final(registry).endpoints
                    == registry.endpoints
            },
{
    assert forall|sessions: &mut Sessions<J>, registry: &mut Backends<C, R>, r: Closed<J, C>|
        #[trigger]
        call_ensures(
            Sessions::<J>::close::<C, R, F>,
            (sessions, registry, token, &is_finished),
            r,
        ) && sessions.wf() && registry.wf() implies 0 <= i < registry.entries@.len()
        && registry.entries@[i].session == token ==> registry.at(token) == i by {
        if 0 <= i < registry.entries@.len() && registry.entries@[i].session == token {
            crate::backend::entry_is(registry.entries@, token, i);
        }
    }
}

/// A task that reports its end is given up without being cancelled, and its
/// session's channel stays on offer.
pub proof fn a_finished_task_is_not_cancelled<J, C>(token: SessionToken)
    ensures
        forall|sessions: &mut Sessions<J>, r: Closed<J, C>| #[trigger]
            call_ensures(Sessions::<J>::finished::<C>, (sessions, token), r) ==> {
                let had = sessions.tasks@.contains_key(token);
                &&& had ==> r.task == Some(sessions.tasks@[token]) && r.counts.live == -1
                &&& !had ==> r.task is None && r.counts.live == 0
                &&& !r.cancel && r.counts.cancelled == 0 && r.withdrawn is None
                &&& final(sessions).tasks@ == sessions.tasks@.remove(token)
                &&& final(sessions).backends == sessions.backends
            },
{
}

/// The acceptor stops where it is shut down or no more events come; it makes an
/// endpoint for a connection that is ready, ends the session of one that closed
/// or failed alike, gives up a task that ended, and reports counters. Nothing
/// else makes it do anything.
pub proof fn an_acceptor_does_what_it_is_told<J, C, R, F: Fn(&J) -> bool>(
    input: AcceptInput,
    is_finished: F,
)
    ensures
        forall|
            sessions: &mut Sessions<J>,
            registry: &mut Backends<C, R>,
            r: AcceptAction<J, C>,
        | #[trigger]
            call_ensures(
                Sessions::<J>::accept::<C, R, F>,
                (sessions, registry, input, &is_finished),
                r,
            ) ==> {
                let (tasks, keys) = (sessions.tasks@, sessions.backends@);
                let (tasks_after, keys_after) = (final(sessions).tasks@, final(sessions).backends@);
                &&& input is Shutdown || input is EventsEnded ==> r is Stop
                &&& input is Joined || input == AcceptInput::Event(DmeshEvent::InfraReady) ==> r
                    is Wait
                &&& input matches AcceptInput::Finished(token) ==> {
                    &&& r matches AcceptAction::Reap(closed)
                    &&& closed.task == (if tasks.contains_key(token) {
                        Some(tasks[token])
                    } else {
                        None
                    })
                    &&& !closed.cancel && closed.withdrawn is None
                    &&& tasks_after == tasks.remove(token) && keys_after == keys
                }
                &&& input matches AcceptInput::Event(event) ==> match event {
                    DmeshEvent::InfraReady => true,
                    DmeshEvent::ConnReady(token, flow) => r == AcceptAction::<J, C>::Register(
                        token,
                        flow,
                    ),
                    DmeshEvent::ConnClosed(token) => {
                        &&& r matches AcceptAction::Reap(closed)
                        &&& closed.task == (if tasks.contains_key(token) {
                            Some(tasks[token])
                        } else {
                            None
                        })
                        &&& closed.task is Some ==> is_finished.ensures(
                            (&closed.task->0,),
                            !closed.cancel,
                        )
                        &&& tasks_after == tasks.remove(token) && keys_after == keys.remove(token)
                    },
                    DmeshEvent::ConnError(token) => {
                        &&& r matches AcceptAction::Reap(closed)
                        &&& closed.task == (if tasks.contains_key(token) {
                            Some(tasks[token])
                        } else {
                            None
                        })
                        &&& closed.task is Some ==> is_finished.ensures(
                            (&closed.task->0,),
                            !closed.cancel,
                        )
                        &&& tasks_after == tasks.remove(token) && keys_after == keys.remove(token)
                    },
                    DmeshEvent::Stats { .. } => r == AcceptAction::<J, C>::Report(event),
                }
                &&& r is Stop || r is Wait || r is Register || r is Report ==> *final(sessions)
                    == *sessions && *final(registry) == *registry
            },
{
}

/// A session that closes or fails has its channel withdrawn where the channel is
/// still its own, and counts a task less for its task and a cancellation for a
/// task that had not ended.
pub proof fn a_close_withdraws_and_counts<J, C, R, F: Fn(&J) -> bool>(
    token: SessionToken,
    failed: bool,
    is_finished: F,
    i: int,
)
    ensures
        forall|
            sessions: &mut Sessions<J>,
            registry: &mut Backends<C, R>,
            input: AcceptInput,
            r: AcceptAction<J, C>,
        | #[trigger]
            call_ensures(
                Sessions::<J>::accept::<C, R, F>,
                (sessions, registry, input, &is_finished),
                r,
            ) && registry.wf() && sessions.wf() && input == AcceptInput::Event(
                if failed {
                    DmeshEvent::ConnError(token)
                } else {
                    DmeshEvent::ConnClosed(token)
                },
            ) ==> {
                let key = sessions.backends@[token];
                let entry = registry.entries@[i];
                &&& r matches AcceptAction::Reap(closed)
                &&& closed.counts.live == (if closed.task is Some {
                    -1int
                } else {
                    0
                })
                &&& closed.counts.cancelled == (if closed.cancel {
                    1int
                } else {
                    0
                })
                &&& closed.task is None ==> !closed.cancel
                &&& sessions.backends@.contains_key(token) && 0 <= i < registry.entries@.len()
                    && entry.session == token && entry.service == key.service ==> closed.withdrawn
                    == entry.io && final(registry).entries@ == registry.entries@.remove(i)
                &&& !sessions.backends@.contains_key(token) ==> closed.withdrawn is None
                    && *final(registry) == *registry
            },
{
    assert forall|
        sessions: &mut Sessions<J>,
        registry: &mut Backends<C, R>,
        input: AcceptInput,
        r: AcceptAction<J, C>,
    | #[trigger]
        call_ensures(
            Sessions::<J>::accept::<C, R, F>,
            (sessions, registry, input, &is_finished),
            r,
        ) && registry.wf() && sessions.wf() implies 0 <= i < registry.entries@.len()
        && registry.entries@[i].session == token ==> registry.at(token) == i by {
        if 0 <= i < registry.entries@.len() && registry.entries@[i].session == token {
            crate::backend::entry_is(registry.entries@, token, i);
        }
    }
}

/// A ready connection stops the acceptor where the driver did not take its
/// endpoint. One whose host end provides a service offers its endpoint for the
/// flow's destination, once for each session; any other is served, with its
/// endpoint, as the flow it is.
pub proof fn a_ready_connection_is_published_or_served<J, C, R>(
    token: SessionToken,
    flow: FlowId,
    io: C,
    registered: bool,
)
    ensures
        forall|
            sessions: &mut Sessions<J>,
            registry: &mut Backends<C, R>,
            r: (Admission, Option<C>),
        | #[trigger]
            call_ensures(
                Sessions::<J>::ready::<C, R>,
                (sessions, registry, token, &flow, io, registered),
                r,
            ) ==> {
                let there = exists|j: int|
                    0 <= j < registry.entries@.len() && (#[trigger] registry.entries@[j]).session
                        == token;
                let service = SocketAddr::V4(flow.dst);
                &&& !registered ==> r.0 is Stop && r.1 is None
                &&& registered && flow.is_backend && there ==> r.0 == Admission::Refused(
                    PublishError::AlreadyLive,
                ) && r.1 is None
                &&& registered && flow.is_backend && !there ==> {
                    &&& r.0 is Published && r.1 is None
                    &&& final(registry).entries@ == registry.entries@.push(
                        crate::backend::Entry { session: token, service, io: Some(io) },
                    )
                    &&& final(sessions).backends@.contains_key(token)
                    &&& final(sessions).backends@[token].service == service
                    &&& final(sessions).backends@[token].session == token
                }
                &&& registered && !flow.is_backend ==> {
                    &&& r.0 matches Admission::Serve(target)
                    &&& target.orig_dst == service && target.client == SocketAddr::V4(flow.src)
                    &&& target.session == token && target.policy_workload@ == flow.workload@
                    &&& r.1 == Some(io)
                }
                &&& !(r.0 is Published) ==> *final(registry) == *registry && *final(sessions)
                    == *sessions
                &&& final(sessions).tasks == sessions.tasks
            },
        forall|
            sessions: &mut Sessions<J>,
            registry: &mut Backends<C, R>,
            key: BackendKey,
            r: Result<(), PublishError>,
        | #[trigger]
            call_ensures(
                Sessions::<J>::publish_backend::<C, R>,
                (sessions, registry, key, io),
                r,
            ) ==> {
                let there = exists|j: int|
                    0 <= j < registry.entries@.len() && (#[trigger] registry.entries@[j]).session
                        == key.session;
                &&& there ==> r == Err::<(), PublishError>(PublishError::AlreadyLive)
                    && *final(registry) == *registry && *final(sessions) == *sessions
                &&& !there ==> r is Ok && final(registry).entries@ == registry.entries@.push(
                    crate::backend::Entry {
                        session: key.session,
                        service: key.service,
                        io: Some(io),
                    },
                ) && final(sessions).backends@ == sessions.backends@.insert(key.session, key)
            },
{
    assert forall|sessions: &mut Sessions<J>, registry: &mut Backends<C, R>, r: (
        Admission,
        Option<C>,
    )| #[trigger]
        call_ensures(
            Sessions::<J>::ready::<C, R>,
            (sessions, registry, token, &flow, io, registered),
            r,
        ) implies registry.published(token) == exists|j: int|
        0 <= j < registry.entries@.len() && (#[trigger] registry.entries@[j]).session == token by {
        published_is(*registry, token);
    }
    assert forall|
        sessions: &mut Sessions<J>,
        registry: &mut Backends<C, R>,
        key: BackendKey,
        r: Result<(), PublishError>,
    | #[trigger]
        call_ensures(
            Sessions::<J>::publish_backend::<C, R>,
            (sessions, registry, key, io),
            r,
        ) implies registry.published(key.session) == exists|j: int|
        0 <= j < registry.entries@.len() && (#[trigger] registry.entries@[j]).session
            == key.session by {
        published_is(*registry, key.session);
    }
}

proof fn published_is<C, R>(registry: Backends<C, R>, token: SessionToken)
    ensures
        registry.published(token) <==> exists|j: int|
            0 <= j < registry.entries@.len() && (#[trigger] registry.entries@[j]).session == token,
{
    crate::backend::position_finds(registry.entries@, token);
    if registry.published(token) {
        assert(registry.entries@[registry.at(token)].session == token);
    } else {
        assert forall|j: int| 0 <= j < registry.entries@.len() implies (
        #[trigger] registry.entries@[j]).session != token by {
            crate::backend::unpublished_is_absent(registry.entries@, token, j);
        }
    }
}

/// A drain ends every session: every task is given up, and cancelled exactly
/// where it has not ended, and no task and no key is left.
pub proof fn a_drain_ends_every_session<J, C, R, F: Fn(&J) -> bool>(
    is_finished: F,
    token: SessionToken,
)
    ensures
        forall|
            sessions: &mut Sessions<J>,
            registry: &mut Backends<C, R>,
            r: Vec<Closed<J, C>>,
        | #[trigger]
            call_ensures(
                Sessions::<J>::drain::<C, R, F>,
                (sessions, registry, &is_finished),
                r,
            ) ==> {
                &&& !final(sessions).tasks@.contains_key(token)
                &&& !final(sessions).backends@.contains_key(token)
                &&& sessions.tasks@.contains_key(token) ==> exists|i: int|
                    0 <= i < r@.len() && (#[trigger] r@[i]).task == Some(sessions.tasks@[token])
                        && is_finished.ensures((&sessions.tasks@[token],), !r@[i].cancel)
                        && r@[i].counts.live == -1 && r@[i].counts.cancelled == (if r@[i].cancel {
                        1int
                    } else {
                        0
                    })
            },
{
    assert forall|sessions: &mut Sessions<J>, registry: &mut Backends<C, R>, r: Vec<Closed<J, C>>|
        #[trigger]
        call_ensures(Sessions::<J>::drain::<C, R, F>, (sessions, registry, &is_finished), r)
            && sessions.tasks@.contains_key(token) implies exists|i: int|
        0 <= i < r@.len() && (#[trigger] r@[i]).task == Some(sessions.tasks@[token])
            && is_finished.ensures((&sessions.tasks@[token],), !r@[i].cancel)
            && r@[i].counts.live == -1 && r@[i].counts.cancelled == (if r@[i].cancel {
            1int
        } else {
            0
        }) by {
        assert(handed_back(r@, sessions.tasks@[token]));
        let i = choose|i: int|
            0 <= i < r@.len() && (#[trigger] r@[i]).task == Some(sessions.tasks@[token]);
        assert(r@[i].counts == task_counts(r@[i]));
    }
}

/// The number of live tasks and that of the cancelled ones are moved by what is
/// counted.
pub proof fn task_counts_move_their_metrics(counts: TaskCounts, metrics: SessionMetrics)
    requires
        call_ensures(TaskCounts::record, (&counts, &metrics), ()),
    ensures
        moved_by(metrics.tasks_live, counts.live),
        counted_by(metrics.tasks_cancelled, counts.cancelled),
{
}

/// What the acceptor published is no longer on offer once it is drained, as far
/// as it still was its own.
pub proof fn a_drain_withdraws_what_was_published<J, C, R, F: Fn(&J) -> bool>(
    is_finished: F,
    token: SessionToken,
    i: int,
    j: int,
)
    ensures
        forall|
            sessions: &mut Sessions<J>,
            registry: &mut Backends<C, R>,
            r: Vec<Closed<J, C>>,
        | #[trigger]
            call_ensures(
                Sessions::<J>::drain::<C, R, F>,
                (sessions, registry, &is_finished),
                r,
            ) && registry.wf() && sessions.backends@.contains_key(token) && 0 <= i
                < registry.entries@.len() && registry.entries@[i].session == token
                && registry.entries@[i].service == sessions.backends@[token].service ==> !(0 <= j
                < final(registry).entries@.len() && final(registry).entries@[j].session == token),
{
    assert forall|sessions: &mut Sessions<J>, registry: &mut Backends<C, R>, r: Vec<Closed<J, C>>|
        #[trigger]
        call_ensures(Sessions::<J>::drain::<C, R, F>, (sessions, registry, &is_finished), r)
            && registry.wf() && sessions.backends@.contains_key(token) && 0 <= i
            < registry.entries@.len() && registry.entries@[i].session == token
            && registry.entries@[i].service == sessions.backends@[token].service implies !(0 <= j
        < final(registry).entries@.len() && final(registry).entries@[j].session == token) by {
        crate::backend::entry_is(registry.entries@, token, i);
        assert(!final(registry).published(token));
        if 0 <= j < final(registry).entries@.len() {
            crate::backend::unpublished_is_absent(final(registry).entries@, token, j);
        }
    }
}

/// A drain leaves what others published, session by session, as it was.
pub proof fn a_drain_spares_what_others_published<J, C, R, F: Fn(&J) -> bool>(
    is_finished: F,
    token: SessionToken,
    i: int,
)
    ensures
        forall|
            sessions: &mut Sessions<J>,
            registry: &mut Backends<C, R>,
            r: Vec<Closed<J, C>>,
        | #[trigger]
            call_ensures(
                Sessions::<J>::drain::<C, R, F>,
                (sessions, registry, &is_finished),
                r,
            ) && registry.wf() && !sessions.backends@.contains_key(token) && 0 <= i
                < registry.entries@.len() && registry.entries@[i].session == token ==> exists|j: int|
                0 <= j < final(registry).entries@.len() && #[trigger] final(registry).entries@[j]
                    == registry.entries@[i],
{
    assert forall|sessions: &mut Sessions<J>, registry: &mut Backends<C, R>, r: Vec<Closed<J, C>>|
        #[trigger]
        call_ensures(Sessions::<J>::drain::<C, R, F>, (sessions, registry, &is_finished), r)
            && registry.wf() && !sessions.backends@.contains_key(token) && 0 <= i
            < registry.entries@.len() && registry.entries@[i].session == token implies exists|j: int|
        0 <= j < final(registry).entries@.len() && #[trigger] final(registry).entries@[j]
            == registry.entries@[i] by {
        crate::backend::entry_is(registry.entries@, token, i);
        assert(same_entry(*registry, *final(registry), token));
        crate::backend::position_finds(final(registry).entries@, token);
        let j = final(registry).at(token);
        assert(final(registry).entries@[j] == registry.entries@[i]);
    }
}

/// An acceptor begins without a task and without a channel.
pub proof fn an_acceptor_begins_without_sessions<J>(r: Sessions<J>)
    requires
        call_ensures(Sessions::<J>::new, (), r),
    ensures
        forall|token: SessionToken| !(#[trigger] r.tasks@.contains_key(token)),
        forall|token: SessionToken| !(#[trigger] r.backends@.contains_key(token)),
{
}

/// A task that ended on its own is one live task less where it was owned, and no
/// cancellation.
pub proof fn an_ended_task_is_counted<J, C, R, F: Fn(&J) -> bool>(
    token: SessionToken,
    is_finished: F,
)
    ensures
        forall|
            sessions: &mut Sessions<J>,
            registry: &mut Backends<C, R>,
            r: AcceptAction<J, C>,
        | #[trigger]
            call_ensures(
                Sessions::<J>::accept::<C, R, F>,
                (sessions, registry, AcceptInput::Finished(token), &is_finished),
                r,
            ) ==> {
                &&& r matches AcceptAction::Reap(closed)
                &&& closed.counts.live == (if sessions.tasks@.contains_key(token) {
                    -1int
                } else {
                    0
                })
                &&& closed.counts.cancelled == 0
                &&& *final(registry) == *registry
            },
{
}

} // verus!
