//! Registry of DMA backend channels.
//!
//! A session publishes the endpoint that provides its service here, and the
//! outbound connector takes it instead of dialing TCP. Entries are keyed by
//! session, so a closing session evicts its own channel and cannot withdraw
//! the one a later session published for the same service.
use vstd::prelude::*;

use crate::net::SocketAddr;
use crate::session::SessionToken;

verus! {

/// What an address the balancer selected resolves to.
///
/// The datapath chooses the backend itself, so a selected endpoint is
/// translated rather than dialled. Every outcome other than `Live` and
/// `SessionOwn` declines the connection: a round robin or a TCP fallback would
/// carry a protected stream somewhere its policy never named.
#[derive(Clone, Copy, Debug, Eq, PartialEq, Structural)]
pub enum EndpointVerdict {
    /// The session's own service address; there is no endpoint to resolve.
    SessionOwn,
    /// A live registration serves it.
    Live,
    /// No live registration serves it.
    Unresolved,
    /// The generation places it on another node.
    Remote,
    /// The mapping predates the held generation.
    Stale,
}

/// Identifies one session's backend channel.
#[derive(Clone, Copy, Debug, Eq, Hash, PartialEq, Structural)]
pub struct BackendKey {
    pub worker: u16,
    pub service: SocketAddr,
    pub session: SessionToken,
}

impl BackendKey {
    pub fn new(service: SocketAddr, session: SessionToken) -> (r: Self)
        ensures
            r == (BackendKey { worker: session.worker, service, session }),
    {
        BackendKey { worker: session.worker, service, session }
    }

    /// The key as text, where `service` is the text of its service address:
    /// `<service>[<session>]`.
    pub fn display(&self, service: &str) -> (r: String)
        ensures
            r@ == service@ + "["@ + self.session.spec_display() + "]"@,
    {
        let mut out = String::new();
        out.append(service);
        out.append("[");
        let session = self.session.display();
        out.append(session.as_str());
        out.append("]");
        assert(out@ =~= service@ + "["@ + self.session.spec_display() + "]"@);
        out
    }
}

/// Why a channel could not be published.
#[derive(Clone, Copy, Debug, Eq, PartialEq, Structural)]
pub enum PublishError {
    /// The same key is already live. Publishing would drop a channel a session
    /// still owns.
    AlreadyLive,
}

impl PublishError {
    pub fn message(&self) -> (r: &'static str)
        ensures
            r@ == "a live dmesh backend channel holds this key"@,
    {
        "a live dmesh backend channel holds this key"
    }
}

/// Why a channel could not be taken.
#[derive(Clone, Copy, Debug, Eq, PartialEq, Structural)]
pub enum TakeError {
    /// No session provides this service.
    NotPublished,
    /// The channel was already handed to a connector.
    AlreadyTaken,
    /// The newest signed snapshot places the endpoint that discovery selected
    /// in a different service than the session's.
    TargetMismatch,
    /// No live registration serves the selected endpoint.
    EndpointUnresolved,
    /// The generation places the selected endpoint on another node.
    EndpointRemote,
    /// The mapping from the selected endpoint to a Pod predates the held
    /// generation.
    EndpointStale,
}

impl TakeError {
    pub open spec fn spec_message(self) -> Seq<char> {
        match self {
            TakeError::NotPublished => "no dmesh backend channel for this service"@,
            TakeError::AlreadyTaken => "the dmesh backend channel was already taken"@,
            TakeError::TargetMismatch => "the selected endpoint belongs to another dmesh Service"@,
            TakeError::EndpointUnresolved => "no live registration serves the selected endpoint"@,
            TakeError::EndpointRemote => "the selected endpoint is placed on another node"@,
            TakeError::EndpointStale =>
                "the selected endpoint's mapping predates the held generation"@,
        }
    }

    pub fn message(&self) -> (r: &'static str)
        ensures
            r@ == self.spec_message(),
    {
        match self {
            TakeError::NotPublished => "no dmesh backend channel for this service",
            TakeError::AlreadyTaken => "the dmesh backend channel was already taken",
            TakeError::TargetMismatch => "the selected endpoint belongs to another dmesh Service",
            TakeError::EndpointUnresolved => "no live registration serves the selected endpoint",
            TakeError::EndpointRemote => "the selected endpoint is placed on another node",
            TakeError::EndpointStale =>
                "the selected endpoint's mapping predates the held generation",
        }
    }
}

/// One session's channel.
#[derive(Debug)]
pub struct Entry<C> {
    pub session: SessionToken,
    pub service: SocketAddr,
    /// `None` once a connector has taken the channel.
    pub io: Option<C>,
}

/// Backend channels published by the sessions of one worker.
///
/// `C` is the channel and `R` resolves an address that the balancer selected.
#[derive(Debug)]
pub struct Backends<C, R> {
    /// At most one per session, in publication order.
    pub entries: Vec<Entry<C>>,
    /// Which service each address of the newest signed generation belongs to;
    /// of two placements of one address the later counts.
    pub placements: Vec<(SocketAddr, SocketAddr)>,
    /// Absent until one is installed, in which case every placed address is
    /// taken as the session's.
    pub endpoints: Option<R>,
}

/// Where the entry of `session` stands, or the number of entries.
pub open spec fn position<C>(entries: Seq<Entry<C>>, session: SessionToken) -> int
    decreases entries.len(),
{
    if entries.len() == 0 {
        0
    } else if entries[0].session == session {
        0
    } else {
        1 + position(entries.drop_first(), session)
    }
}

/// The sessions that provide `service`, in publication order.
pub open spec fn sessions_of<C>(entries: Seq<Entry<C>>, service: SocketAddr) -> Seq<SessionToken>
    decreases entries.len(),
{
    if entries.len() == 0 {
        Seq::empty()
    } else {
        let before = sessions_of(entries.drop_last(), service);
        if entries.last().service == service {
            before.push(entries.last().session)
        } else {
            before
        }
    }
}

/// The service that `placements` puts `target` in.
pub open spec fn placement_of(
    placements: Seq<(SocketAddr, SocketAddr)>,
    target: SocketAddr,
) -> Option<SocketAddr>
    decreases placements.len(),
{
    if placements.len() == 0 {
        None
    } else if placements.last().0 == target {
        Some(placements.last().1)
    } else {
        placement_of(placements.drop_last(), target)
    }
}

/// Why a resolver's verdict declines a connection.
pub open spec fn verdict_error(verdict: EndpointVerdict) -> Option<TakeError> {
    match verdict {
        EndpointVerdict::SessionOwn => None,
        EndpointVerdict::Live => None,
        EndpointVerdict::Unresolved => Some(TakeError::EndpointUnresolved),
        EndpointVerdict::Remote => Some(TakeError::EndpointRemote),
        EndpointVerdict::Stale => Some(TakeError::EndpointStale),
    }
}

impl<C, R> Backends<C, R> {
    /// No session has two entries.
    pub open spec fn wf(self) -> bool {
        forall|i: int, j: int|
            0 <= i < j < self.entries@.len() ==> (#[trigger] self.entries@[i]).session != (
            #[trigger] self.entries@[j]).session
    }

    /// Where the entry of `session` stands, or the number of entries.
    pub open spec fn at(self, session: SessionToken) -> int {
        position(self.entries@, session)
    }

    pub open spec fn published(self, session: SessionToken) -> bool {
        self.at(session) < self.entries@.len()
    }

    /// The newest generation places `target` in another service than the
    /// session's.
    pub open spec fn misplaced(self, session: SessionToken, target: SocketAddr) -> bool {
        placement_of(self.placements@, target) matches Some(placed) && placed
            != self.entries@[self.at(session)].service
    }

    /// Why a take of the session's channel is refused when the resolver, if one
    /// is asked, said `verdict`.
    pub open spec fn refusal(
        self,
        session: SessionToken,
        target: SocketAddr,
        verdict: Option<EndpointVerdict>,
    ) -> Option<TakeError> {
        if !self.published(session) {
            Some(TakeError::NotPublished)
        } else if self.misplaced(session, target) {
            Some(TakeError::TargetMismatch)
        } else if verdict matches Some(v) && verdict_error(v) is Some {
            verdict_error(verdict->0)
        } else if self.entries@[self.at(session)].io is None {
            Some(TakeError::AlreadyTaken)
        } else {
            None
        }
    }

    /// What a take returns and leaves.
    pub open spec fn take_outcome(
        self,
        after: Self,
        session: SessionToken,
        target: SocketAddr,
        verdict: Option<EndpointVerdict>,
        r: Result<C, TakeError>,
    ) -> bool {
        match self.refusal(session, target, verdict) {
            Some(error) => r == Err::<C, TakeError>(error) && after == self,
            None => {
                let i = self.at(session);
                &&& r == Ok::<C, TakeError>(self.entries@[i].io->0)
                &&& after.entries@ == self.entries@.update(
                    i,
                    Entry { io: None, ..self.entries@[i] },
                )
                &&& after == (Backends { entries: after.entries, ..self })
            },
        }
    }

    pub fn new() -> (r: Self)
        ensures
            r.wf(),
            r.entries@.len() == 0,
            r.placements@.len() == 0,
            r.endpoints is None,
    {
        Backends { entries: Vec::new(), placements: Vec::new(), endpoints: None }
    }

    fn find(&self, session: SessionToken) -> (r: Option<usize>)
        ensures
            r is Some <==> self.published(session),
            r matches Some(i) ==> i == self.at(session) && i < self.entries@.len()
                && self.entries@[i as int].session == session,
            r is None ==> forall|j: int|
                0 <= j < self.entries@.len() ==> (#[trigger] self.entries@[j]).session != session,
    {
        let mut i: usize = 0;
        assert(self.entries@.skip(0) =~= self.entries@);
        while i < self.entries.len()
            invariant
                i <= self.entries.len(),
                position(self.entries@, session) == i + position(
                    self.entries@.skip(i as int),
                    session,
                ),
                forall|j: int| 0 <= j < i ==> (#[trigger] self.entries@[j]).session != session,
            decreases self.entries.len() - i,
        {
            assert(self.entries@.skip(i as int)[0] == self.entries@[i as int]);
            if self.entries[i].session == session {
                return Some(i);
            }
            assert(self.entries@.skip(i as int).drop_first() =~= self.entries@.skip(i + 1));
            i = i + 1;
        }
        None
    }

    fn placement(&self, target: SocketAddr) -> (r: Option<SocketAddr>)
        ensures
            r == placement_of(self.placements@, target),
    {
        let mut i: usize = self.placements.len();
        assert(self.placements@.take(i as int) =~= self.placements@);
        while i > 0
            invariant
                i <= self.placements.len(),
                placement_of(self.placements@, target) == placement_of(
                    self.placements@.take(i as int),
                    target,
                ),
            decreases i,
        {
            let (from, to): (SocketAddr, SocketAddr) = self.placements[i - 1];
            assert(self.placements@.take(i as int).last() == (from, to));
            assert(self.placements@.take(i as int).drop_last() =~= self.placements@.take(i - 1));
            if from == target {
                return Some(to);
            }
            i = i - 1;
        }
        None
    }

    /// Offer a session's channel. A duplicate live key is refused rather than
    /// silently replacing the endpoint another session still owns.
    pub fn publish(&mut self, key: BackendKey, io: C) -> (r: Result<(), PublishError>)
        requires
            old(self).wf(),
        ensures
            final(self).wf(),
            r is Err <==> old(self).published(key.session),
            r matches Err(e) ==> e == PublishError::AlreadyLive && *final(self) == *old(self),
            r is Ok ==> final(self).entries@ == old(self).entries@.push(
                Entry { session: key.session, service: key.service, io: Some(io) },
            ),
            *final(self) == (Backends { entries: final(self).entries, ..*old(self) }),
            changes(
                *old(self),
                *final(self),
                if r is Ok {
                    Change::Published(key.session, key.service)
                } else {
                    Change::Nothing
                },
            ),
    {
        if self.find(key.session).is_some() {
            return Err(PublishError::AlreadyLive);
        }
        self.entries.push(Entry { session: key.session, service: key.service, io: Some(io) });
        assert(self.entries@.drop_last() =~= old(self).entries@);
        Ok(())
    }

    /// Take the channel of a session, when the installed resolver, if there is
    /// one, answered `verdict` for the selected target.
    pub fn take_resolved(
        &mut self,
        session: SessionToken,
        selected_target: SocketAddr,
        verdict: Option<EndpointVerdict>,
    ) -> (r: Result<C, TakeError>)
        requires
            old(self).wf(),
        ensures
            final(self).wf(),
            old(self).take_outcome(*final(self), session, selected_target, verdict, r),
            changes(*old(self), *final(self), Change::Nothing),
    {
        let i: usize = match self.find(session) {
            Some(i) => i,
            None => return Err(TakeError::NotPublished),
        };
        if let Some(placed) = self.placement(selected_target) {
            if placed != self.entries[i].service {
                return Err(TakeError::TargetMismatch);
            }
        }
        match verdict {
            Some(EndpointVerdict::Unresolved) => return Err(TakeError::EndpointUnresolved),
            Some(EndpointVerdict::Remote) => return Err(TakeError::EndpointRemote),
            Some(EndpointVerdict::Stale) => return Err(TakeError::EndpointStale),
            Some(EndpointVerdict::SessionOwn) => {},
            Some(EndpointVerdict::Live) => {},
            None => {},
        }
        if self.entries[i].io.is_none() {
            return Err(TakeError::AlreadyTaken);
        }
        let entry = self.entries.remove(i);
        self.entries.insert(i, Entry { session: entry.session, service: entry.service, io: None });
        assert(self.entries@ =~= old(self).entries@.update(
            i as int,
            Entry { io: None, ..old(self).entries@[i as int] },
        ));
        match entry.io {
            Some(io) => Ok(io),
            None => Err(TakeError::AlreadyTaken),
        }
    }

    /// Install the newest signed view of which service each address belongs to.
    /// Live sessions are judged against it, so a generation adopted after a
    /// session opened still governs that session's dial.
    pub fn place_targets(&mut self, placements: Vec<(SocketAddr, SocketAddr)>)
        requires
            old(self).wf(),
        ensures
            final(self).wf(),
            *final(self) == (Backends { placements, ..*old(self) }),
            changes(*old(self), *final(self), Change::Nothing),
    {
        self.placements = placements;
    }

    /// Install the resolver that translates a selected endpoint to a live
    /// destination. Applied to every subsequent take, including one for a
    /// session that opened before it.
    pub fn set_endpoint_resolver(&mut self, resolve: R)
        requires
            old(self).wf(),
        ensures
            final(self).wf(),
            *final(self) == (Backends { endpoints: Some(resolve), ..*old(self) }),
            changes(*old(self), *final(self), Change::Nothing),
    {
        self.endpoints = Some(resolve);
    }

    /// Evict exactly one session's entry, whether or not it was taken, and
    /// return its channel if it was not.
    ///
    /// A close must run this before the next generation publishes, so the new
    /// session's channel is the only one on offer.
    pub fn remove(&mut self, key: &BackendKey) -> (r: Option<C>)
        requires
            old(self).wf(),
        ensures
            final(self).wf(),
            *final(self) == (Backends { entries: final(self).entries, ..*old(self) }),
            ({
                let i = old(self).at(key.session);
                if old(self).published(key.session) && old(self).entries@[i].service
                    == key.service {
                    r == old(self).entries@[i].io && final(self).entries@ == old(
                        self,
                    ).entries@.remove(i)
                } else {
                    r is None && final(self).entries@ == old(self).entries@
                }
            }),
            changes(
                *old(self),
                *final(self),
                if old(self).published(key.session) && old(self).entries@[old(self).at(
                    key.session,
                )].service == key.service {
                    Change::Withdrawn(key.session)
                } else {
                    Change::Nothing
                },
            ),
    {
        let i: usize = match self.find(key.session) {
            Some(i) => i,
            None => return None,
        };
        if self.entries[i].service != key.service {
            return None;
        }
        let entry = self.entries.remove(i);
        entry.io
    }

    /// True while any session provides this service.
    pub fn contains_service(&self, service: &SocketAddr) -> (r: bool)
        ensures
            r == (sessions_of(self.entries@, *service).len() > 0),
    {
        self.sessions_for(service).len() > 0
    }

    /// True when the datapath provides the address: it names a published
    /// service or an endpoint the newest signed generation places. A
    /// sessionless dial to such an address must be refused rather than fall
    /// through to TCP.
    pub fn manages(&self, addr: &SocketAddr) -> (r: bool)
        ensures
            r == self.spec_manages(*addr),
    {
        self.contains_service(addr) || self.placement(*addr).is_some()
    }

    pub open spec fn spec_manages(self, addr: SocketAddr) -> bool {
        sessions_of(self.entries@, addr).len() > 0 || placement_of(self.placements@, addr) is Some
    }

    /// Sessions currently providing a service, in publication order.
    pub fn sessions_for(&self, service: &SocketAddr) -> (r: Vec<SessionToken>)
        ensures
            r@ == sessions_of(self.entries@, *service),
    {
        let mut sessions: Vec<SessionToken> = Vec::new();
        let mut i: usize = 0;
        while i < self.entries.len()
            invariant
                i <= self.entries.len(),
                sessions@ == sessions_of(self.entries@.take(i as int), *service),
            decreases self.entries.len() - i,
        {
            assert(self.entries@.take(i + 1).drop_last() =~= self.entries@.take(i as int));
            if self.entries[i].service == *service {
                sessions.push(self.entries[i].session);
            }
            i = i + 1;
        }
        assert(self.entries@.take(i as int) =~= self.entries@);
        sessions
    }

    /// Entries held for all services.
    pub fn len(&self) -> (r: usize)
        ensures
            r == self.entries@.len(),
    {
        self.entries.len()
    }

    pub fn is_empty(&self) -> (r: bool)
        ensures
            r == (self.entries@.len() == 0),
    {
        self.entries.len() == 0
    }
}

impl<C, R: Fn(SocketAddr) -> EndpointVerdict> Backends<C, R> {
    /// Take the backend channel owned by one session.
    ///
    /// Discovery may replace the service address with a concrete endpoint, but
    /// it may not move a session to another service. The newest signed
    /// generation decides: an address it places in another service is a
    /// mismatch.
    ///
    /// Once a resolver is installed, the selected address must resolve to the
    /// session's own or to a live destination; one that does not is declined
    /// by the reason it failed for, never round-robined and never dialled over
    /// TCP. The resolver is asked only about a published session whose target
    /// is not misplaced.
    pub fn take_session(&mut self, session: SessionToken, selected_target: SocketAddr) -> (r: Result<
        C,
        TakeError,
    >)
        requires
            old(self).wf(),
            old(self).endpoints matches Some(resolve) ==> resolve.requires((selected_target,)),
        ensures
            final(self).wf(),
            old(self).endpoints is None || !old(self).published(session) || old(self).misplaced(
                session,
                selected_target,
            ) ==> old(self).take_outcome(*final(self), session, selected_target, None, r),
            old(self).endpoints matches Some(resolve) ==> (old(self).published(session) && !old(
                self,
            ).misplaced(session, selected_target) ==> exists|verdict: EndpointVerdict|
                resolve.ensures((selected_target,), verdict) && #[trigger] old(self).take_outcome(
                    *final(self),
                    session,
                    selected_target,
                    Some(verdict),
                    r,
                )),
            changes(*old(self), *final(self), Change::Nothing),
    {
        let i: usize = match self.find(session) {
            Some(i) => i,
            None => return Err(TakeError::NotPublished),
        };
        if let Some(placed) = self.placement(selected_target) {
            if placed != self.entries[i].service {
                return Err(TakeError::TargetMismatch);
            }
        }
        let verdict: Option<EndpointVerdict> = match &self.endpoints {
            Some(resolve) => Some(resolve(selected_target)),
            None => None,
        };
        self.take_resolved(session, selected_target, verdict)
    }
}

/// What a call changes about which session provides which service.
pub enum Change {
    /// The session offers its channel to the service.
    Published(SessionToken, SocketAddr),
    /// The session's entry was evicted.
    Withdrawn(SessionToken),
    /// No entry came or went; a channel may have been taken.
    Nothing,
}

/// The two hold the same sessions for the same services, in the same order.
pub open spec fn same_offers<C>(before: Seq<Entry<C>>, after: Seq<Entry<C>>) -> bool {
    &&& after.len() == before.len()
    &&& forall|i: int|
        0 <= i < before.len() ==> (#[trigger] after[i]).session == before[i].session
            && after[i].service == before[i].service
}

/// Between the two states `change` happened.
pub open spec fn changes<C, R>(before: Backends<C, R>, after: Backends<C, R>, change: Change) -> bool {
    match change {
        Change::Published(session, service) => {
            &&& !before.published(session)
            &&& after.entries@.len() == before.entries@.len() + 1
            &&& after.entries@.last().session == session
            &&& after.entries@.last().service == service
            &&& after.entries@.drop_last() == before.entries@
        },
        Change::Withdrawn(session) => {
            &&& before.published(session)
            &&& after.entries@ == before.entries@.remove(before.at(session))
        },
        Change::Nothing => same_offers(before.entries@, after.entries@),
    }
}

/// A history of calls: `history[k]` is what the call on `states[k]` changed.
pub open spec fn is_history<C, R>(states: Seq<Backends<C, R>>, history: Seq<Change>) -> bool {
    &&& states.len() == history.len() + 1
    &&& forall|k: int| 0 <= k < states.len() ==> (#[trigger] states[k]).wf()
    &&& forall|k: int|
        0 <= k < history.len() ==> changes(states[k], states[k + 1], #[trigger] history[k])
}

/// `sessions` without `session`.
pub open spec fn without(sessions: Seq<SessionToken>, session: SessionToken) -> Seq<SessionToken>
    decreases sessions.len(),
{
    if sessions.len() == 0 {
        Seq::empty()
    } else {
        let before = without(sessions.drop_last(), session);
        if sessions.last() == session {
            before
        } else {
            before.push(sessions.last())
        }
    }
}

/// The sessions that have published for `service` and were not evicted since,
/// in the order in which they published.
pub open spec fn providing(history: Seq<Change>, service: SocketAddr) -> Seq<SessionToken>
    decreases history.len(),
{
    if history.len() == 0 {
        Seq::empty()
    } else {
        let before = providing(history.drop_last(), service);
        match history.last() {
            Change::Published(session, to) => if to == service {
                before.push(session)
            } else {
                before
            },
            Change::Withdrawn(session) => without(before, session),
            Change::Nothing => before,
        }
    }
}

proof fn same_sessions<C>(before: Seq<Entry<C>>, after: Seq<Entry<C>>, service: SocketAddr)
    requires
        same_offers(before, after),
    ensures
        sessions_of(after, service) == sessions_of(before, service),
    decreases before.len(),
{
    if before.len() > 0 {
        same_sessions(before.drop_last(), after.drop_last(), service);
        assert(after.last().session == before.last().session);
    }
}

/// A session that is absent is not listed.
proof fn absent_is_not_without<C>(
    entries: Seq<Entry<C>>,
    service: SocketAddr,
    session: SessionToken,
)
    requires
        forall|i: int| 0 <= i < entries.len() ==> (#[trigger] entries[i]).session != session,
    ensures
        without(sessions_of(entries, service), session) == sessions_of(entries, service),
    decreases entries.len(),
{
    if entries.len() > 0 {
        absent_is_not_without(entries.drop_last(), service, session);
        let listed = sessions_of(entries.drop_last(), service);
        assert(listed.push(entries.last().session).drop_last() =~= listed);
    }
}

/// Evicting one entry takes its session off the list of its service.
proof fn evicted_is_without<C>(entries: Seq<Entry<C>>, i: int, service: SocketAddr)
    requires
        0 <= i < entries.len(),
        forall|a: int, b: int|
            0 <= a < b < entries.len() ==> (#[trigger] entries[a]).session != (
            #[trigger] entries[b]).session,
    ensures
        sessions_of(entries.remove(i), service) == without(
            sessions_of(entries, service),
            entries[i].session,
        ),
    decreases entries.len(),
{
    let session = entries[i].session;
    let rest = entries.drop_last();
    let listed = sessions_of(rest, service);
    assert(listed.push(entries.last().session).drop_last() =~= listed);
    if i == entries.len() - 1 {
        assert(entries.remove(i) =~= rest);
        absent_is_not_without(rest, service, session);
    } else {
        assert(entries.remove(i).drop_last() =~= rest.remove(i));
        assert(entries.remove(i).last() == entries.last());
        evicted_is_without(rest, i, service);
        assert(entries[i].session != entries[entries.len() - 1].session);
    }
}

/// Over any history of calls on a new registry, the sessions that provide a
/// service are those that published for it and were not evicted since, in the
/// order in which they published.
pub proof fn sessions_follow_the_history<C, R>(
    states: Seq<Backends<C, R>>,
    history: Seq<Change>,
    service: SocketAddr,
)
    requires
        is_history(states, history),
        states[0].entries@.len() == 0,
    ensures
        sessions_of(states.last().entries@, service) == providing(history, service),
    decreases history.len(),
{
    if history.len() > 0 {
        let n = history.len() as int;
        let earlier = history.drop_last();
        let before = states.drop_last();
        assert forall|k: int| 0 <= k < before.len() implies (#[trigger] before[k]).wf() by {
            assert(states[k].wf());
        }
        assert forall|k: int| 0 <= k < earlier.len() implies changes(
            before[k],
            before[k + 1],
            #[trigger] earlier[k],
        ) by {
            assert(history[k] == earlier[k]);
        }
        sessions_follow_the_history(before, earlier, service);
        let last = states[n - 1];
        assert(last.wf());
        assert(changes(states[n - 1], states[n - 1 + 1], history[n - 1]));
        match history[n - 1] {
            Change::Published(session, to) => {},
            Change::Withdrawn(session) => {
                position_finds(last.entries@, session);
                evicted_is_without(last.entries@, last.at(session), service);
            },
            Change::Nothing => {
                same_sessions(last.entries@, states[n].entries@, service);
            },
        }
    }
}

/// The position of a session is where its entry stands.
proof fn position_is<C>(entries: Seq<Entry<C>>, session: SessionToken, i: int)
    requires
        0 <= i < entries.len(),
        entries[i].session == session,
        forall|j: int| 0 <= j < i ==> (#[trigger] entries[j]).session != session,
    ensures
        position(entries, session) == i,
    decreases entries.len(),
{
    if i > 0 {
        assert(entries[0].session != session);
        let rest = entries.drop_first();
        assert forall|j: int| 0 <= j < i - 1 implies (#[trigger] rest[j]).session != session by {
            assert(rest[j] == entries[j + 1]);
        }
        position_is(rest, session, i - 1);
    }
}

/// A session is published exactly when an entry is its own, and that entry
/// stands at its position.
pub proof fn position_finds<C>(entries: Seq<Entry<C>>, session: SessionToken)
    ensures
        0 <= position(entries, session) <= entries.len(),
        position(entries, session) < entries.len() ==> entries[position(entries, session)].session
            == session,
    decreases entries.len(),
{
    if entries.len() > 0 && entries[0].session != session {
        position_finds(entries.drop_first(), session);
    }
}

/// A session is published exactly where it was before a change of nothing, and
/// for the same service.
pub proof fn offers_stay<C>(before: Seq<Entry<C>>, after: Seq<Entry<C>>, session: SessionToken)
    requires
        same_offers(before, after),
    ensures
        position(after, session) == position(before, session),
        position(before, session) < before.len() ==> after[position(before, session)].service
            == before[position(before, session)].service,
    decreases before.len(),
{
    position_finds(before, session);
    if before.len() > 0 {
        assert(after[0].session == before[0].session);
        offers_stay(before.drop_first(), after.drop_first(), session);
    }
}

/// A new entry at the end is found there, and every other where it was.
pub proof fn offered_at_the_end<C>(
    before: Seq<Entry<C>>,
    entry: Entry<C>,
    session: SessionToken,
)
    requires
        position(before, entry.session) >= before.len(),
    ensures
        position(before.push(entry), session) == if session == entry.session {
            before.len() as int
        } else if position(before, session) < before.len() {
            position(before, session)
        } else {
            before.len() as int + 1
        },
        0 <= position(before, session),
    decreases before.len(),
{
    position_finds(before, session);
    if before.len() > 0 {
        assert(before.push(entry).drop_first() =~= before.drop_first().push(entry));
        offered_at_the_end(before.drop_first(), entry, session);
        position_finds(before.drop_first(), session);
    } else {
        assert(before.push(entry).drop_first() =~= before);
        assert(position(before.push(entry).drop_first(), session) == 0);
    }
}

/// Evicting a session leaves every other session's channel where it was: a
/// closed generation cannot withdraw what a later one published.
pub proof fn a_removal_evicts_only_itself<C, R>(
    before: Backends<C, R>,
    after: Backends<C, R>,
    closed: SessionToken,
    other: SessionToken,
)
    requires
        before.wf(),
        before.published(closed),
        after.entries@ == before.entries@.remove(before.at(closed)),
        other != closed,
    ensures
        after.published(other) <==> before.published(other),
        before.published(other) ==> after.entries@[after.at(other)]
            == before.entries@[before.at(other)],
        !after.published(closed),
{
    let i = before.at(closed);
    position_finds(before.entries@, closed);
    position_finds(before.entries@, other);
    position_finds(after.entries@, closed);
    position_finds(after.entries@, other);
    if before.published(other) {
        let j = before.at(other);
        let k = if j < i {
            j
        } else {
            j - 1
        };
        assert(after.entries@[k] == before.entries@[j]);
        assert forall|m: int| 0 <= m < k implies (#[trigger] after.entries@[m]).session
            != other by {
            let n = if m < i {
                m
            } else {
                m + 1
            };
            assert(after.entries@[m] == before.entries@[n]);
            assert(before.entries@[n].session != before.entries@[j].session);
        }
        position_is(after.entries@, other, k);
    }
    if after.published(other) {
        let k = after.at(other);
        let j = if k < i {
            k
        } else {
            k + 1
        };
        assert(before.entries@[j] == after.entries@[k]);
        assert forall|m: int| 0 <= m < j implies (#[trigger] before.entries@[m]).session
            != other by {
            assert(before.entries@[m].session != before.entries@[j].session);
        }
        position_is(before.entries@, other, j);
    }
    if after.published(closed) {
        let k = after.at(closed);
        let j = if k < i {
            k
        } else {
            k + 1
        };
        assert(before.entries@[j] == after.entries@[k]);
        if j < i {
            assert(before.entries@[j].session != before.entries@[i].session);
        } else {
            assert(before.entries@[i].session != before.entries@[j].session);
        }
    }
}

/// A channel is handed out once: whatever the later target and verdict, a take
/// that follows a successful one is refused.
pub proof fn a_channel_is_taken_once<C, R>(
    before: Backends<C, R>,
    after: Backends<C, R>,
    session: SessionToken,
    target: SocketAddr,
    verdict: Option<EndpointVerdict>,
    taken: Result<C, TakeError>,
    later_target: SocketAddr,
    later_verdict: Option<EndpointVerdict>,
)
    requires
        before.wf(),
        before.take_outcome(after, session, target, verdict, taken),
        taken is Ok,
    ensures
        after.published(session),
        after.refusal(session, later_target, later_verdict) is Some,
        before.refusal(session, target, verdict) is None,
{
    let i = before.at(session);
    position_finds(before.entries@, session);
    assert forall|m: int| 0 <= m < i implies (#[trigger] after.entries@[m]).session != session by {
        assert(before.entries@[m].session != before.entries@[i].session);
    }
    position_is(after.entries@, session, i);
}

/// What a session published is what a take of that session gives back, to a
/// target in its service that resolves.
pub proof fn a_take_gives_back_what_was_published<C, R>(
    before: Backends<C, R>,
    after: Backends<C, R>,
    key: BackendKey,
    io: C,
    target: SocketAddr,
    verdict: Option<EndpointVerdict>,
)
    requires
        before.wf(),
        !before.published(key.session),
        after.entries@ == before.entries@.push(
            Entry { session: key.session, service: key.service, io: Some(io) },
        ),
        placement_of(after.placements@, target) matches Some(placed) ==> placed == key.service,
        verdict matches Some(v) ==> verdict_error(v) is None,
    ensures
        after.refusal(key.session, target, verdict) is None,
        after.entries@[after.at(key.session)].io == Some(io),
{
    let n = before.entries@.len() as int;
    assert forall|m: int| 0 <= m < n implies (#[trigger] after.entries@[m]).session
        != key.session by {
        if before.entries@[m].session == key.session {
            unpublished_is_absent(before.entries@, key.session, m);
        }
    }
    position_is(after.entries@, key.session, n);
}

/// A session that is not published has no entry.
pub proof fn unpublished_is_absent<C>(entries: Seq<Entry<C>>, session: SessionToken, m: int)
    requires
        position(entries, session) >= entries.len(),
        0 <= m < entries.len(),
    ensures
        entries[m].session != session,
    decreases entries.len(),
{
    if m > 0 {
        let rest = entries.drop_first();
        assert(rest[m - 1] == entries[m]);
        unpublished_is_absent(rest, session, m - 1);
    }
}

/// Where the placement of an address stands that counts: the last of its own.
pub proof fn placement_is(placements: Seq<(SocketAddr, SocketAddr)>, target: SocketAddr) -> (p: int)
    ensures
        placement_of(placements, target) is Some ==> 0 <= p < placements.len() && placements[p] == (
            target,
            placement_of(placements, target)->0,
        ) && forall|q: int| p < q < placements.len() ==> (#[trigger] placements[q]).0 != target,
        placement_of(placements, target) is None ==> forall|q: int|
            0 <= q < placements.len() ==> (#[trigger] placements[q]).0 != target,
    decreases placements.len(),
{
    if placements.len() == 0 {
        0
    } else if placements.last().0 == target {
        placements.len() - 1
    } else {
        let rest = placements.drop_last();
        let p = placement_is(rest, target);
        assert forall|q: int| 0 <= q < rest.len() implies rest[q] == #[trigger] placements[q] by {}
        p
    }
}

/// The entry of a session is the one at its position.
pub proof fn entry_is<C>(entries: Seq<Entry<C>>, session: SessionToken, i: int)
    requires
        forall|a: int, b: int|
            0 <= a < b < entries.len() ==> (#[trigger] entries[a]).session != (
            #[trigger] entries[b]).session,
        0 <= i < entries.len(),
        entries[i].session == session,
    ensures
        position(entries, session) == i,
{
    assert forall|j: int| 0 <= j < i implies (#[trigger] entries[j]).session != session by {
        assert(entries[j].session != entries[i].session);
    }
    position_is(entries, session, i);
}

/// A take of a published channel, whose session's entry is the one at `i`,
/// fails where the last placement of the target is in another service, where
/// the resolver says that the target is unresolved, remote or stale, and where
/// the channel was taken already, in this order; it succeeds in every other
/// case, so with the session's own address and with a live one alike, and where
/// no resolver is installed. Then the channel is given out and that entry has
/// none any more; where a take fails, nothing changes.
pub proof fn a_take_needs_an_endpoint_of_the_session<C, R>(
    session: SessionToken,
    target: SocketAddr,
    verdict: Option<EndpointVerdict>,
    i: int,
)
    ensures
        forall|backends: &mut Backends<C, R>, r: Result<C, TakeError>| #[trigger]
            call_ensures(Backends::<C, R>::take_resolved, (backends, session, target, verdict), r)
                && backends.wf() && 0 <= i < backends.entries@.len()
                && backends.entries@[i].session == session ==> {
                let placements = backends.placements@;
                let entry = backends.entries@[i];
                let elsewhere = exists|p: int|
                    0 <= p < placements.len() && (#[trigger] placements[p]).0 == target
                        && placements[p].1 != entry.service && forall|q: int|
                        p < q < placements.len() ==> (#[trigger] placements[q]).0 != target;
                let resolves = verdict is None || verdict == Some(EndpointVerdict::SessionOwn)
                    || verdict == Some(EndpointVerdict::Live);
                &&& elsewhere ==> r == Err::<C, TakeError>(TakeError::TargetMismatch)
                &&& !elsewhere && verdict == Some(EndpointVerdict::Unresolved) ==> r == Err::<
                    C,
                    TakeError,
                >(TakeError::EndpointUnresolved)
                &&& !elsewhere && verdict == Some(EndpointVerdict::Remote) ==> r == Err::<
                    C,
                    TakeError,
                >(TakeError::EndpointRemote)
                &&& !elsewhere && verdict == Some(EndpointVerdict::Stale) ==> r == Err::<
                    C,
                    TakeError,
                >(TakeError::EndpointStale)
                &&& !elsewhere && resolves && entry.io is None ==> r == Err::<C, TakeError>(
                    TakeError::AlreadyTaken,
                )
                &&& !elsewhere && resolves && entry.io is Some ==> {
                    &&& r == Ok::<C, TakeError>(entry.io->0)
                    &&& final(backends).entries@ == backends.entries@.update(
                        i,
                        Entry { session, service: entry.service, io: None },
                    )
                    &&& final(backends).placements == backends.placements
                    &&& final(backends).endpoints == backends.endpoints
                }
                &&& r is Err ==> *final(backends) == *backends
            },
{
    assert forall|backends: &mut Backends<C, R>, r: Result<C, TakeError>| #[trigger]
        call_ensures(Backends::<C, R>::take_resolved, (backends, session, target, verdict), r)
            && backends.wf() && 0 <= i < backends.entries@.len() && backends.entries@[i].session
            == session implies {
        let placements = backends.placements@;
        let elsewhere = exists|p: int|
            0 <= p < placements.len() && (#[trigger] placements[p]).0 == target && placements[p].1
                != backends.entries@[i].service && forall|q: int|
                p < q < placements.len() ==> (#[trigger] placements[q]).0 != target;
        &&& backends.at(session) == i
        &&& elsewhere == backends.misplaced(session, target)
    } by {
        entry_is(backends.entries@, session, i);
        let placements = backends.placements@;
        let service = backends.entries@[i].service;
        let p = placement_is(placements, target);
        if backends.misplaced(session, target) {
            assert(placements[p].0 == target && placements[p].1 != service);
        }
        if exists|p: int|
            0 <= p < placements.len() && (#[trigger] placements[p]).0 == target && placements[p].1
                != service && forall|q: int|
                p < q < placements.len() ==> (#[trigger] placements[q]).0 != target {
            let o = choose|p: int|
                0 <= p < placements.len() && (#[trigger] placements[p]).0 == target
                    && placements[p].1 != service && forall|q: int|
                    p < q < placements.len() ==> (#[trigger] placements[q]).0 != target;
            assert(placements[o].0 == target);
            assert(placements[p].0 == target);
            assert(o == p);
        }
    }
}

/// A session without an entry has no channel to take, whatever the target and
/// the verdict.
pub proof fn a_take_needs_a_published_session<C, R>(
    session: SessionToken,
    target: SocketAddr,
    verdict: Option<EndpointVerdict>,
)
    ensures
        forall|backends: &mut Backends<C, R>, r: Result<C, TakeError>| #[trigger]
            call_ensures(Backends::<C, R>::take_resolved, (backends, session, target, verdict), r)
                && (forall|j: int|
                0 <= j < backends.entries@.len() ==> (#[trigger] backends.entries@[j]).session
                    != session) ==> r == Err::<C, TakeError>(TakeError::NotPublished)
                && *final(backends) == *backends,
{
    assert forall|backends: &mut Backends<C, R>, r: Result<C, TakeError>| #[trigger]
        call_ensures(Backends::<C, R>::take_resolved, (backends, session, target, verdict), r) && (
        forall|j: int|
            0 <= j < backends.entries@.len() ==> (#[trigger] backends.entries@[j]).session
                != session) implies !backends.published(session) by {
        position_finds(backends.entries@, session);
    }
}

/// With a resolver installed, and a target that is not placed elsewhere, a take
/// of the channel at `i` goes by what the resolver says of the target: with the
/// session's own address and with a live one it gives the channel out, and with
/// any other it is declined for that reason. What the resolver says of another
/// address does not matter.
pub proof fn a_take_goes_by_the_resolver<C, R: Fn(SocketAddr) -> EndpointVerdict>(
    session: SessionToken,
    target: SocketAddr,
    i: int,
)
    ensures
        forall|backends: &mut Backends<C, R>, r: Result<C, TakeError>| #[trigger]
            call_ensures(Backends::<C, R>::take_session, (backends, session, target), r)
                && backends.wf() && 0 <= i < backends.entries@.len()
                && backends.entries@[i].session == session && backends.endpoints is Some && (forall|
                q: int,
            |
                0 <= q < backends.placements@.len() && (#[trigger] backends.placements@[q]).0
                    == target ==> backends.placements@[q].1 == backends.entries@[i].service) ==> {
                let resolve = backends.endpoints->0;
                let io = backends.entries@[i].io;
                exists|verdict: EndpointVerdict|
                    {
                        &&& #[trigger] resolve.ensures((target,), verdict)
                        &&& r == match verdict {
                            EndpointVerdict::Unresolved => Err::<C, TakeError>(
                                TakeError::EndpointUnresolved,
                            ),
                            EndpointVerdict::Remote => Err::<C, TakeError>(
                                TakeError::EndpointRemote,
                            ),
                            EndpointVerdict::Stale => Err::<C, TakeError>(TakeError::EndpointStale),
                            EndpointVerdict::SessionOwn => if io is Some {
                                Ok::<C, TakeError>(io->0)
                            } else {
                                Err::<C, TakeError>(TakeError::AlreadyTaken)
                            },
                            EndpointVerdict::Live => if io is Some {
                                Ok::<C, TakeError>(io->0)
                            } else {
                                Err::<C, TakeError>(TakeError::AlreadyTaken)
                            },
                        }
                    }
            },
{
    assert forall|backends: &mut Backends<C, R>, r: Result<C, TakeError>| #[trigger]
        call_ensures(Backends::<C, R>::take_session, (backends, session, target), r)
            && backends.wf() && 0 <= i < backends.entries@.len() && backends.entries@[i].session
            == session && backends.endpoints is Some && (forall|q: int|
            0 <= q < backends.placements@.len() && (#[trigger] backends.placements@[q]).0 == target
                ==> backends.placements@[q].1 == backends.entries@[i].service) implies {
        let resolve = backends.endpoints->0;
        let io = backends.entries@[i].io;
        exists|verdict: EndpointVerdict|
            {
                &&& #[trigger] resolve.ensures((target,), verdict)
                &&& r == match verdict {
                    EndpointVerdict::Unresolved => Err::<C, TakeError>(
                        TakeError::EndpointUnresolved,
                    ),
                    EndpointVerdict::Remote => Err::<C, TakeError>(TakeError::EndpointRemote),
                    EndpointVerdict::Stale => Err::<C, TakeError>(TakeError::EndpointStale),
                    EndpointVerdict::SessionOwn => if io is Some {
                        Ok::<C, TakeError>(io->0)
                    } else {
                        Err::<C, TakeError>(TakeError::AlreadyTaken)
                    },
                    EndpointVerdict::Live => if io is Some {
                        Ok::<C, TakeError>(io->0)
                    } else {
                        Err::<C, TakeError>(TakeError::AlreadyTaken)
                    },
                }
            }
    } by {
        entry_is(backends.entries@, session, i);
        let p = placement_is(backends.placements@, target);
        assert(!backends.misplaced(session, target)) by {
            if backends.misplaced(session, target) {
                assert(backends.placements@[p].0 == target);
            }
        }
        let resolve = backends.endpoints->0;
        let verdict = choose|verdict: EndpointVerdict|
            resolve.ensures((target,), verdict) && #[trigger] backends.take_outcome(
                *final(backends),
                session,
                target,
                Some(verdict),
                r,
            );
        assert(resolve.ensures((target,), verdict));
    }
}

/// Without a resolver every target that is not placed elsewhere is the
/// session's: a take of the channel at `i` gives it out, once. A target whose
/// last placement is in another service is declined whether or not a resolver is
/// installed.
pub proof fn a_take_without_a_resolver<C, R: Fn(SocketAddr) -> EndpointVerdict>(
    session: SessionToken,
    target: SocketAddr,
    i: int,
    p: int,
)
    ensures
        forall|backends: &mut Backends<C, R>, r: Result<C, TakeError>| #[trigger]
            call_ensures(Backends::<C, R>::take_session, (backends, session, target), r)
                && backends.wf() && 0 <= i < backends.entries@.len()
                && backends.entries@[i].session == session ==> {
                let placements = backends.placements@;
                let entry = backends.entries@[i];
                let last = 0 <= p < placements.len() && placements[p].0 == target && forall|q: int|
                    p < q < placements.len() ==> (#[trigger] placements[q]).0 != target;
                let unplaced = forall|q: int|
                    0 <= q < placements.len() ==> (#[trigger] placements[q]).0 != target;
                &&& last && placements[p].1 != entry.service ==> r == Err::<C, TakeError>(
                    TakeError::TargetMismatch,
                )
                &&& backends.endpoints is None && (unplaced || (last && placements[p].1
                    == entry.service)) ==> r == if entry.io is Some {
                    Ok::<C, TakeError>(entry.io->0)
                } else {
                    Err::<C, TakeError>(TakeError::AlreadyTaken)
                }
            },
{
    assert forall|backends: &mut Backends<C, R>, r: Result<C, TakeError>| #[trigger]
        call_ensures(Backends::<C, R>::take_session, (backends, session, target), r)
            && backends.wf() && 0 <= i < backends.entries@.len() && backends.entries@[i].session
            == session implies {
        let placements = backends.placements@;
        let last = 0 <= p < placements.len() && placements[p].0 == target && forall|q: int|
            p < q < placements.len() ==> (#[trigger] placements[q]).0 != target;
        let unplaced = forall|q: int|
            0 <= q < placements.len() ==> (#[trigger] placements[q]).0 != target;
        &&& backends.at(session) == i
        &&& last ==> placement_of(placements, target) == Some(placements[p].1)
        &&& unplaced ==> placement_of(placements, target) is None
    } by {
        entry_is(backends.entries@, session, i);
        let placements = backends.placements@;
        let o = placement_is(placements, target);
        if placement_of(placements, target) is Some {
            assert(placements[o].0 == target);
        }
        if 0 <= p < placements.len() && placements[p].0 == target {
            assert(placements[p].0 == target);
        }
    }
}

/// A session's channel is published, for the service of its key, exactly where
/// the session has none yet; nothing that is there is replaced.
pub proof fn a_channel_is_published_once<C, R>(key: BackendKey, io: C)
    ensures
        forall|backends: &mut Backends<C, R>, r: Result<(), PublishError>| #[trigger]
            call_ensures(Backends::<C, R>::publish, (backends, key, io), r) ==> {
                let there = exists|j: int|
                    0 <= j < backends.entries@.len() && (#[trigger] backends.entries@[j]).session
                        == key.session;
                &&& there ==> r == Err::<(), PublishError>(PublishError::AlreadyLive)
                    && *final(backends) == *backends
                &&& !there ==> r is Ok && final(backends).entries@ == backends.entries@.push(
                    Entry { session: key.session, service: key.service, io: Some(io) },
                )
            },
{
    assert forall|backends: &mut Backends<C, R>, r: Result<(), PublishError>| #[trigger]
        call_ensures(Backends::<C, R>::publish, (backends, key, io), r) implies backends.published(
        key.session,
    ) == exists|j: int|
        0 <= j < backends.entries@.len() && (#[trigger] backends.entries@[j]).session
            == key.session by {
        position_finds(backends.entries@, key.session);
        if backends.published(key.session) {
            assert(backends.entries@[backends.at(key.session)].session == key.session);
        } else {
            assert forall|j: int| 0 <= j < backends.entries@.len() implies (
            #[trigger] backends.entries@[j]).session != key.session by {
                unpublished_is_absent(backends.entries@, key.session, j);
            }
        }
    }
}

/// An eviction takes exactly the entry of the key's session, where it is for
/// the key's service too, and gives back the channel that nobody had taken; any
/// other key evicts nothing.
pub proof fn an_eviction_is_of_one_key<C, R>(key: BackendKey, i: int)
    ensures
        forall|backends: &mut Backends<C, R>, r: Option<C>| #[trigger]
            call_ensures(Backends::<C, R>::remove, (backends, &key), r) && backends.wf() && 0 <= i
                < backends.entries@.len() && backends.entries@[i].session == key.session ==> {
                let entry = backends.entries@[i];
                &&& entry.service == key.service ==> r == entry.io && final(backends).entries@
                    == backends.entries@.remove(i)
                &&& entry.service != key.service ==> r is None && final(backends).entries@
                    == backends.entries@
            },
        forall|backends: &mut Backends<C, R>, r: Option<C>| #[trigger]
            call_ensures(Backends::<C, R>::remove, (backends, &key), r) && (forall|j: int|
                0 <= j < backends.entries@.len() ==> (#[trigger] backends.entries@[j]).session
                    != key.session) ==> r is None && final(backends).entries@ == backends.entries@,
{
    assert forall|backends: &mut Backends<C, R>, r: Option<C>| #[trigger]
        call_ensures(Backends::<C, R>::remove, (backends, &key), r) && backends.wf() && 0 <= i
            < backends.entries@.len() && backends.entries@[i].session
            == key.session implies backends.at(key.session) == i by {
        entry_is(backends.entries@, key.session, i);
    }
    assert forall|backends: &mut Backends<C, R>, r: Option<C>| #[trigger]
        call_ensures(Backends::<C, R>::remove, (backends, &key), r) && (forall|j: int|
            0 <= j < backends.entries@.len() ==> (#[trigger] backends.entries@[j]).session
                != key.session) implies !backends.published(key.session) by {
        position_finds(backends.entries@, key.session);
    }
}

/// Which entries the sessions of a service are.
pub proof fn sessions_are<C>(entries: Seq<Entry<C>>, service: SocketAddr) -> (at: Seq<int>)
    ensures
        at.len() == sessions_of(entries, service).len(),
        forall|i: int, j: int| 0 <= i < j < at.len() ==> at[i] < at[j],
        forall|k: int|
            #![trigger at[k]]
            0 <= k < at.len() ==> 0 <= at[k] < entries.len() && entries[at[k]].service == service
                && sessions_of(entries, service)[k] == entries[at[k]].session,
        forall|i: int|
            #![trigger entries[i]]
            0 <= i < entries.len() && entries[i].service == service ==> at.contains(i),
    decreases entries.len(),
{
    if entries.len() == 0 {
        Seq::empty()
    } else {
        let rest = entries.drop_last();
        let before = sessions_are(rest, service);
        let n = entries.len() - 1;
        assert forall|i: int| 0 <= i < n implies rest[i] == #[trigger] entries[i] by {}
        if sessions_of(entries, service).len() == sessions_of(rest, service).len() {
            before
        } else {
            let at = before.push(n);
            assert(at[before.len() as int] == n);
            assert forall|i: int|
                #![trigger entries[i]]
                0 <= i < n && before.contains(i) implies at.contains(i) by {
                let k = choose|k: int| 0 <= k < before.len() && before[k] == i;
                assert(at[k] == i);
            }
            at
        }
    }
}

/// The sessions of a service are those whose entries are for it, taken or not,
/// in the order of the entries: `at` says which entry each is.
pub proof fn a_service_lists_its_sessions<C, R>(
    backends: Backends<C, R>,
    service: SocketAddr,
    r: Vec<SessionToken>,
) -> (at: Seq<int>)
    requires
        call_ensures(Backends::<C, R>::sessions_for, (&backends, &service), r),
    ensures
        at.len() == r@.len(),
        forall|i: int, j: int| 0 <= i < j < at.len() ==> at[i] < at[j],
        forall|k: int|
            #![trigger at[k]]
            0 <= k < at.len() ==> 0 <= at[k] < backends.entries@.len()
                && backends.entries@[at[k]].service == service && r@[k]
                == backends.entries@[at[k]].session,
        forall|i: int|
            #![trigger backends.entries@[i]]
            0 <= i < backends.entries@.len() && backends.entries@[i].service == service
                ==> at.contains(i),
{
    sessions_are(backends.entries@, service)
}

/// The datapath provides an address exactly where a session publishes it as its
/// service or a placement names it, and a service is there exactly where a
/// session publishes it.
pub proof fn an_address_is_managed_where_it_is_known<C, R>(
    backends: Backends<C, R>,
    addr: SocketAddr,
)
    ensures
        forall|r: bool| #[trigger]
            call_ensures(Backends::<C, R>::manages, (&backends, &addr), r) ==> r == ((exists|
                j: int,
            |
                0 <= j < backends.entries@.len() && (#[trigger] backends.entries@[j]).service
                    == addr) || (exists|q: int|
                0 <= q < backends.placements@.len() && (#[trigger] backends.placements@[q]).0
                    == addr)),
        forall|r: bool| #[trigger]
            call_ensures(Backends::<C, R>::contains_service, (&backends, &addr), r) ==> r == (
            exists|j: int|
                0 <= j < backends.entries@.len() && (#[trigger] backends.entries@[j]).service
                    == addr),
{
    let entries = backends.entries@;
    let at = sessions_are(entries, addr);
    if at.len() > 0 {
        assert(entries[at[0]].service == addr);
    } else {
        assert forall|j: int| 0 <= j < entries.len() implies (#[trigger] entries[j]).service
            != addr by {
            if entries[j].service == addr {
                assert(at.contains(j));
            }
        }
    }
    let p = placement_is(backends.placements@, addr);
    if placement_of(backends.placements@, addr) is Some {
        assert(backends.placements@[p].0 == addr);
    }
}

/// A new generation and a new resolver govern every take from then on, and
/// withdraw no channel.
pub proof fn the_newest_view_governs<C, R>(
    placements: Vec<(SocketAddr, SocketAddr)>,
    resolve: R,
)
    ensures
        forall|backends: &mut Backends<C, R>| #[trigger]
            call_ensures(Backends::<C, R>::place_targets, (backends, placements), ())
                ==> final(backends).placements@ == placements@ && final(backends).entries
                == backends.entries && final(backends).endpoints == backends.endpoints,
        forall|backends: &mut Backends<C, R>| #[trigger]
            call_ensures(Backends::<C, R>::set_endpoint_resolver, (backends, resolve), ())
                ==> final(backends).endpoints == Some(resolve) && final(backends).entries
                == backends.entries && final(backends).placements == backends.placements,
{
}

/// A key is of its session's worker, and reads as its service with the session
/// in brackets.
pub proof fn a_key_names_its_session(service: SocketAddr, session: SessionToken)
    ensures
        forall|key: BackendKey| #[trigger]
            call_ensures(BackendKey::new, (service, session), key) ==> key.service == service
                && key.session == session && key.worker == session.worker,
        forall|key: BackendKey, text: &str, token: String, r: String|
            #![trigger
                call_ensures(BackendKey::display, (&key, text), r),
                call_ensures(SessionToken::display, (&key.session,), token),
            ]
            call_ensures(BackendKey::display, (&key, text), r) && call_ensures(
                SessionToken::display,
                (&key.session,),
                token,
            ) ==> r@ == text@ + "["@ + token@ + "]"@,
{
}

/// Each reason why a take is declined has its own text.
pub proof fn a_declined_take_says_why(error: TakeError, r: &'static str)
    requires
        call_ensures(TakeError::message, (&error,), r),
    ensures
        error == TakeError::NotPublished ==> r@ == "no dmesh backend channel for this service"@,
        error == TakeError::AlreadyTaken ==> r@ == "the dmesh backend channel was already taken"@,
        error == TakeError::TargetMismatch ==> r@
            == "the selected endpoint belongs to another dmesh Service"@,
        error == TakeError::EndpointUnresolved ==> r@
            == "no live registration serves the selected endpoint"@,
        error == TakeError::EndpointRemote ==> r@
            == "the selected endpoint is placed on another node"@,
        error == TakeError::EndpointStale ==> r@
            == "the selected endpoint's mapping predates the held generation"@,
{
}

/// A new registry offers nothing, places nothing and asks nobody; it counts its
/// entries, taken or not.
pub proof fn a_registry_begins_empty<C, R>(backends: Backends<C, R>)
    ensures
        forall|r: Backends<C, R>| #[trigger]
            call_ensures(Backends::<C, R>::new, (), r) ==> r.entries@.len() == 0
                && r.placements@.len() == 0 && r.endpoints is None,
        forall|r: usize| #[trigger]
            call_ensures(Backends::<C, R>::len, (&backends,), r) ==> r == backends.entries@.len(),
        forall|r: bool| #[trigger]
            call_ensures(Backends::<C, R>::is_empty, (&backends,), r) ==> (r
                <==> backends.entries@.len() == 0),
        forall|error: PublishError, r: &'static str| #[trigger]
            call_ensures(PublishError::message, (&error,), r) ==> r@
                == "a live dmesh backend channel holds this key"@,
{
}

/// Publishing and evicting change neither what is placed nor who is asked.
pub proof fn entries_change_alone<C, R>(key: BackendKey, io: C)
    ensures
        forall|backends: &mut Backends<C, R>, r: Result<(), PublishError>| #[trigger]
            call_ensures(Backends::<C, R>::publish, (backends, key, io), r)
                ==> final(backends).placements == backends.placements && final(backends).endpoints
                == backends.endpoints,
        forall|backends: &mut Backends<C, R>, r: Option<C>| #[trigger]
            call_ensures(Backends::<C, R>::remove, (backends, &key), r)
                ==> final(backends).placements == backends.placements && final(backends).endpoints
                == backends.endpoints,
{
}

/// What a session published is what a take of it gives: the channel that was
/// published last under the session goes to a target that nothing places, where
/// no resolver is installed, and a second take finds it taken.
pub proof fn a_published_channel_is_taken<C, R>(key: BackendKey, io: C, target: SocketAddr)
    ensures
        forall|
            first: &mut Backends<C, R>,
            second: &mut Backends<C, R>,
            third: &mut Backends<C, R>,
            published: Result<(), PublishError>,
            a: Result<C, TakeError>,
            b: Result<C, TakeError>,
        |
            #![trigger
                call_ensures(Backends::<C, R>::publish, (first, key, io), published),
                call_ensures(Backends::<C, R>::take_resolved, (second, key.session, target, None), a),
                call_ensures(Backends::<C, R>::take_resolved, (third, key.session, target, None), b),
            ]
            call_ensures(Backends::<C, R>::publish, (first, key, io), published) && first.wf()
                && published is Ok && *second == *final(first) && call_ensures(
                Backends::<C, R>::take_resolved,
                (second, key.session, target, None),
                a,
            ) && *third == *final(second) && call_ensures(
                Backends::<C, R>::take_resolved,
                (third, key.session, target, None),
                b,
            ) && (forall|q: int|
                0 <= q < first.placements@.len() ==> (#[trigger] first.placements@[q]).0 != target)
                ==> a == Ok::<C, TakeError>(io) && b == Err::<C, TakeError>(
                TakeError::AlreadyTaken,
            ),
{
    assert forall|
        first: &mut Backends<C, R>,
        second: &mut Backends<C, R>,
        third: &mut Backends<C, R>,
        published: Result<(), PublishError>,
        a: Result<C, TakeError>,
        b: Result<C, TakeError>,
    |
        #![trigger
            call_ensures(Backends::<C, R>::publish, (first, key, io), published),
            call_ensures(Backends::<C, R>::take_resolved, (second, key.session, target, None), a),
            call_ensures(Backends::<C, R>::take_resolved, (third, key.session, target, None), b),
        ]
        call_ensures(Backends::<C, R>::publish, (first, key, io), published) && first.wf()
            && published is Ok && *second == *final(first) && call_ensures(
            Backends::<C, R>::take_resolved,
            (second, key.session, target, None),
            a,
        ) && *third == *final(second) && call_ensures(
            Backends::<C, R>::take_resolved,
            (third, key.session, target, None),
            b,
        ) && (forall|q: int|
            0 <= q < first.placements@.len() ==> (#[trigger] first.placements@[q]).0
                != target) implies a == Ok::<C, TakeError>(io) && b == Err::<C, TakeError>(
        TakeError::AlreadyTaken,
    ) by {
        let n = first.entries@.len() as int;
        assert(second.entries@[n].session == key.session);
        entry_is(second.entries@, key.session, n);
        let p = placement_is(second.placements@, target);
        if placement_of(second.placements@, target) is Some {
            assert(first.placements@[p].0 == target);
        }
        assert(third.entries@[n].session == key.session);
        entry_is(third.entries@, key.session, n);
        assert(third.placements == second.placements);
    }
}

} // verus!
