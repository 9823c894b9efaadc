//! How the outbound connector reaches an endpoint.
//!
//! A backend that the datapath provides is reached through its session's
//! registered channel, everything else over TCP. A service that the datapath
//! has provided is never dialed over TCP: a stream that took that path would
//! run without the policy the mesh applied, so a missing channel fails the
//! connection and is counted.
use vstd::prelude::*;

use crate::backend::{Backends, EndpointVerdict, TakeError};
use crate::io::{ErrorKind, IoError};
use crate::metrics::{count, counted, SessionMetrics};
use crate::net::{SocketAddr, SocketAddrV4};
use crate::session::SessionToken;

verus! {

/// The session a connect request is made on behalf of. `None` for connections
/// that came from a socket.
#[derive(Clone, Copy, Debug, Eq, PartialEq, Structural)]
pub struct SessionHandle(pub Option<SessionToken>);

/// An endpoint target paired with the session that is dialing it.
#[derive(Clone, Debug)]
pub struct SessionEndpoint<E> {
    pub endpoint: E,
    pub session: SessionHandle,
}

impl<E> SessionEndpoint<E> {
    pub fn new(endpoint: E, session: SessionHandle) -> (r: Self)
        ensures
            r == (SessionEndpoint { endpoint, session }),
    {
        SessionEndpoint { endpoint, session }
    }
}

/// An endpoint to connect to: its address, the TLS it is dialed with and the
/// session it is dialed for.
#[derive(Clone, Debug)]
pub struct Connect<T> {
    pub addr: SocketAddr,
    pub tls: T,
    pub session: SessionHandle,
}

impl<T> Connect<T> {
    /// An endpoint dialed for no session.
    pub fn new(addr: SocketAddr, tls: T) -> (r: Self)
        ensures
            r == (Connect { addr, tls, session: SessionHandle(None) }),
    {
        Connect { addr, tls, session: SessionHandle(None) }
    }

    /// Names the session this endpoint is dialed for.
    pub fn with_session(self, session: SessionHandle) -> (r: Self)
        ensures
            r == (Connect { session, ..self }),
    {
        Connect { addr: self.addr, tls: self.tls, session }
    }
}

/// What one worker's outbound stack is wired to. Two workers never share one.
#[derive(Debug)]
pub struct Dmesh<C, R> {
    pub backends: Backends<C, R>,
    pub metrics: SessionMetrics,
}

/// Why a dial through the datapath was refused.
#[derive(Clone, Copy, Debug, PartialEq, Eq, Structural)]
pub enum ChannelError {
    /// The connection carried a session other than the one its stack is bound
    /// to.
    SessionMismatch { carried: SessionToken, bound: SessionToken },
    /// A connection without a session dialed an address that the datapath
    /// provides.
    Sessionless,
    /// The session's channel could not be taken.
    Take { session: SessionToken, error: TakeError },
}

/// Which counters a dial moves, each by one.
#[derive(Debug, PartialEq, Eq)]
pub struct ChannelCounts {
    pub session_mismatch: bool,
    pub sessionless_refusal: bool,
    pub take_error: bool,
    pub target_mismatch: bool,
}

impl ChannelCounts {
    /// A dial that is not refused moves none.
    pub open spec fn spec_none() -> ChannelCounts {
        ChannelCounts {
            session_mismatch: false,
            sessionless_refusal: false,
            take_error: false,
            target_mismatch: false,
        }
    }

    /// No counter.
    pub fn none() -> (r: ChannelCounts)
        ensures
            r == ChannelCounts::spec_none(),
    {
        ChannelCounts {
            session_mismatch: false,
            sessionless_refusal: false,
            take_error: false,
            target_mismatch: false,
        }
    }

    /// Move the counters. What was counted cannot be counted again.
    pub fn record(self, metrics: &SessionMetrics)
        ensures
            self.session_mismatch ==> counted(metrics.backend_session_mismatches),
            self.sessionless_refusal ==> counted(metrics.backend_sessionless_refusals),
            self.take_error ==> counted(metrics.backend_take_errors),
            self.target_mismatch ==> counted(metrics.backend_target_mismatches),
    {
        if self.session_mismatch {
            count(&metrics.backend_session_mismatches);
        }
        if self.sessionless_refusal {
            count(&metrics.backend_sessionless_refusals);
        }
        if self.take_error {
            count(&metrics.backend_take_errors);
        }
        if self.target_mismatch {
            count(&metrics.backend_target_mismatches);
        }
    }
}

/// What a dial with this outcome counts.
pub open spec fn counts_of<T>(r: Result<T, ChannelError>) -> ChannelCounts {
    match r {
        Ok(_) => ChannelCounts::spec_none(),
        Err(error) => error.spec_counts(),
    }
}

impl ChannelError {
    pub open spec fn spec_counts(self) -> ChannelCounts {
        ChannelCounts {
            session_mismatch: self is SessionMismatch,
            sessionless_refusal: self is Sessionless,
            take_error: self is Take,
            target_mismatch: self matches ChannelError::Take { session, error } && error
                == TakeError::TargetMismatch,
        }
    }

    /// Which counters the refusal moves.
    pub fn counts(&self) -> (r: ChannelCounts)
        ensures
            r == self.spec_counts(),
    {
        let mut counts = ChannelCounts::none();
        match self {
            ChannelError::SessionMismatch { .. } => {
                counts.session_mismatch = true;
            },
            ChannelError::Sessionless => {
                counts.sessionless_refusal = true;
            },
            ChannelError::Take { session: _, error } => {
                counts.take_error = true;
                counts.target_mismatch = *error == TakeError::TargetMismatch;
            },
        }
        counts
    }

    /// What the refusal says of the address that `addr` writes out.
    pub open spec fn spec_message(self, addr: Seq<char>) -> Seq<char> {
        match self {
            ChannelError::SessionMismatch { carried, bound } =>
                "dmesh session mismatch: connection "@ + carried.spec_display() + ", stack "@
                    + bound.spec_display(),
            ChannelError::Sessionless => "dmesh-provided address "@ + addr
                + " dialed without a session"@,
            ChannelError::Take { session, error } => "dmesh backend channel for "@ + addr
                + " session "@ + session.spec_display() + ": "@ + error.spec_message(),
        }
    }

    /// The refusal as a transport error. `addr` is the dialed address in text.
    pub fn to_error(&self, addr: &str) -> (r: IoError)
        ensures
            r.says(ErrorKind::NotConnected, self.spec_message(addr@)),
    {
        let mut message = String::new();
        match self {
            ChannelError::SessionMismatch { carried, bound } => {
                message.append("dmesh session mismatch: connection ");
                message.append(carried.display().as_str());
                message.append(", stack ");
                message.append(bound.display().as_str());
            },
            ChannelError::Sessionless => {
                message.append("dmesh-provided address ");
                message.append(addr);
                message.append(" dialed without a session");
            },
            ChannelError::Take { session, error } => {
                message.append("dmesh backend channel for ");
                message.append(addr);
                message.append(" session ");
                message.append(session.display().as_str());
                message.append(": ");
                message.append(error.message());
            },
        }
        assert(message@ =~= self.spec_message(addr@));
        IoError { kind: ErrorKind::NotConnected, message }
    }
}

/// What a dial does about an address, before any channel is taken.
#[derive(Clone, Copy, Debug, PartialEq, Eq, Structural)]
pub enum Route {
    /// Not an address that the datapath provides.
    Tcp,
    Refused(ChannelError),
    /// Through the channel of this session.
    Session(SessionToken),
}

/// What a connector does with an endpoint.
#[derive(Debug)]
pub enum Dial<C> {
    /// The session's channel, and the local address to report for it.
    Channel(C, SocketAddr),
    Tcp,
}

/// Why a connector refused an endpoint.
#[derive(Debug)]
pub enum DialError {
    Channel(ChannelError),
    Loopback(IoError),
}

/// Prevents outbound connections on the loopback interface, unless they are
/// allowed.
pub fn check_loopback(addr: SocketAddr, allow_loopback: bool) -> (r: Result<(), IoError>)
    ensures
        r is Err <==> addr.spec_ip().spec_is_loopback() && !allow_loopback,
        r matches Err(e) ==> e.says(
            ErrorKind::ConnectionRefused,
            "Outbound proxy cannot initiate connections on the loopback interface"@,
        ),
{
    if !allow_loopback && addr.ip().is_loopback() {
        return Err(
            IoError::new(
                ErrorKind::ConnectionRefused,
                "Outbound proxy cannot initiate connections on the loopback interface",
            ),
        );
    }
    Ok(())
}

/// Physical connector that reaches provided backends through their registered
/// channel and everything else via TCP.
///
/// The session that owns a dial is handed down from the frontend connection; a
/// stack built for exactly one session additionally binds that session, which
/// serves as a fallback and as a consistency check.
#[derive(Debug)]
pub struct DmeshOrTcp<C, R> {
    pub dmesh: Option<Dmesh<C, R>>,
    pub session: Option<SessionToken>,
    /// True on stacks serving DMA frontend connections. On such stacks a
    /// sessionless dial to a provided address is refused instead of falling
    /// through to TCP.
    pub dmesh_origin: bool,
    /// Whether TCP may reach the loopback interface.
    pub allow_loopback: bool,
}

/// The route of a dial: the session is resolved from the connection first and
/// from the stack's binding second.
pub open spec fn route_of<C, R>(
    dmesh: Option<Dmesh<C, R>>,
    bound: Option<SessionToken>,
    handed: SessionHandle,
    dmesh_origin: bool,
    addr: SocketAddr,
) -> Route {
    match dmesh {
        None => Route::Tcp,
        Some(dmesh) => match (handed.0, bound) {
            (Some(carried), Some(bound)) => if carried != bound {
                Route::Refused(ChannelError::SessionMismatch { carried, bound })
            } else {
                Route::Session(carried)
            },
            (Some(carried), None) => Route::Session(carried),
            (None, Some(bound)) => Route::Session(bound),
            (None, None) => if dmesh_origin && dmesh.backends.spec_manages(addr) {
                Route::Refused(ChannelError::Sessionless)
            } else {
                Route::Tcp
            },
        },
    }
}

/// What a take of the session's channel makes of a dial.
pub open spec fn taken<C>(session: SessionToken, take: Result<C, TakeError>) -> Result<
    Option<C>,
    ChannelError,
> {
    match take {
        Ok(io) => Ok(Some(io)),
        Err(error) => Err(ChannelError::Take { session, error }),
    }
}

impl<C, R> DmeshOrTcp<C, R> {
    pub open spec fn wf(self) -> bool {
        self.dmesh matches Some(d) ==> d.backends.wf()
    }

    pub open spec fn spec_route(self, handed: SessionHandle, addr: SocketAddr) -> Route {
        route_of(self.dmesh, self.session, handed, self.dmesh_origin, addr)
    }

    /// What a dial does about `addr`, before any channel is taken.
    pub fn route(&self, handed: SessionHandle, addr: SocketAddr) -> (r: Route)
        ensures
            r == self.spec_route(handed, addr),
    {
        match &self.dmesh {
            None => Route::Tcp,
            Some(dmesh) => {
                if let Some(carried) = handed.0 {
                    if let Some(bound) = self.session {
                        if carried != bound {
                            return Route::Refused(
                                ChannelError::SessionMismatch { carried, bound },
                            );
                        }
                    }
                    return Route::Session(carried);
                }
                if let Some(bound) = self.session {
                    return Route::Session(bound);
                }
                if self.dmesh_origin && dmesh.backends.manages(&addr) {
                    Route::Refused(ChannelError::Sessionless)
                } else {
                    Route::Tcp
                }
            },
        }
    }

    /// The same connector with other backends.
    pub open spec fn with_backends(self, backends: Backends<C, R>) -> Self {
        match self.dmesh {
            Some(d) => DmeshOrTcp { dmesh: Some(Dmesh { backends, ..d }), ..self },
            None => self,
        }
    }

    /// What a dial returns and leaves when the resolver, if one is asked, said
    /// `verdict`.
    pub open spec fn channel_outcome(
        self,
        after: Self,
        handed: SessionHandle,
        addr: SocketAddr,
        verdict: Option<EndpointVerdict>,
        r: Result<Option<C>, ChannelError>,
    ) -> bool {
        match self.spec_route(handed, addr) {
            Route::Tcp => r == Ok::<Option<C>, ChannelError>(None) && after == self,
            Route::Refused(error) => r == Err::<Option<C>, ChannelError>(error) && after == self,
            Route::Session(session) => exists|
                backends: Backends<C, R>,
                take: Result<C, TakeError>,
            |
                {
                    &&& #[trigger] self.dmesh->0.backends.take_outcome(
                        backends,
                        session,
                        addr,
                        verdict,
                        take,
                    )
                    &&& after == self.with_backends(backends)
                    &&& r == taken(session, take)
                },
        }
    }

    /// The resolver is asked about a dial of `session` to `addr`.
    pub open spec fn resolver_decides(self, session: SessionToken, addr: SocketAddr) -> bool {
        &&& self.dmesh matches Some(d) && d.backends.endpoints is Some && d.backends.published(
            session,
        ) && !d.backends.misplaced(session, addr)
    }
}

impl<C, R: Fn(SocketAddr) -> EndpointVerdict> DmeshOrTcp<C, R> {
    /// What a dial returns and leaves, whatever the resolver says where it is
    /// asked.
    pub open spec fn channel_says(
        self,
        after: Self,
        handed: SessionHandle,
        addr: SocketAddr,
        r: Result<Option<C>, ChannelError>,
    ) -> bool {
        if self.spec_route(handed, addr) matches Route::Session(session) && self.resolver_decides(
            session,
            addr,
        ) {
            exists|verdict: EndpointVerdict|
                self.dmesh->0.backends.endpoints->0.ensures((addr,), verdict)
                    && #[trigger] self.channel_outcome(after, handed, addr, Some(verdict), r)
        } else {
            self.channel_outcome(after, handed, addr, None, r)
        }
    }

    /// The channel that a provided service is reached through.
    ///
    /// `Ok(None)` means the address is not one that the datapath provides, so
    /// the caller dials it over TCP as any stock proxy would. The counts are to
    /// be recorded in the connector's metrics.
    pub fn dmesh_channel(&mut self, handed: SessionHandle, addr: SocketAddr) -> (r: (
        Result<Option<C>, ChannelError>,
        ChannelCounts,
    ))
        requires
            old(self).wf(),
            old(self).dmesh matches Some(d) ==> (d.backends.endpoints matches Some(resolve)
                ==> resolve.requires((addr,))),
        ensures
            final(self).wf(),
            final(self).session == old(self).session,
            final(self).dmesh_origin == old(self).dmesh_origin,
            final(self).allow_loopback == old(self).allow_loopback,
            old(self).channel_says(*final(self), handed, addr, r.0),
            r.1 == counts_of(r.0),
    {
        let session: SessionToken = match self.route(handed, addr) {
            Route::Tcp => return (Ok(None), ChannelCounts::none()),
            Route::Refused(error) => {
                let counts = error.counts();
                return (Err(error), counts);
            },
            Route::Session(session) => session,
        };
        let take = match &mut self.dmesh {
            Some(dmesh) => dmesh.backends.take_session(session, addr),
            None => Err(TakeError::NotPublished),
        };
        let ghost took = take;
        let ghost backends = self.dmesh->0.backends;
        let r = match take {
            Ok(io) => (Ok(Some(io)), ChannelCounts::none()),
            Err(error) => {
                let refused = ChannelError::Take { session, error };
                let counts = refused.counts();
                (Err(refused), counts)
            },
        };
        proof {
            let before = old(self).dmesh->0.backends;
            assert(*self == old(self).with_backends(backends));
            assert(r.0 == taken(session, took));
            if old(self).resolver_decides(session, addr) {
                let verdict = choose|verdict: EndpointVerdict|
                    before.endpoints->0.ensures((addr,), verdict)
                        && #[trigger] before.take_outcome(
                        backends,
                        session,
                        addr,
                        Some(verdict),
                        took,
                    );
                assert(old(self).channel_outcome(*self, handed, addr, Some(verdict), r.0));
            } else {
                assert(before.take_outcome(backends, session, addr, None, took));
            }
        }
        r
    }

    /// Connect to `addr` on behalf of `handed`: through the session's channel,
    /// or over TCP where the datapath does not provide the address and the
    /// loopback rule lets it. The counts are to be recorded in the connector's
    /// metrics.
    pub fn dial(&mut self, handed: SessionHandle, addr: SocketAddr) -> (r: (
        Result<Dial<C>, DialError>,
        ChannelCounts,
    ))
        requires
            old(self).wf(),
            old(self).dmesh matches Some(d) ==> (d.backends.endpoints matches Some(resolve)
                ==> resolve.requires((addr,))),
        ensures
            final(self).wf(),
            match old(self).spec_route(handed, addr) {
                Route::Tcp => {
                    &&& *final(self) == *old(self)
                    &&& r.0 is Ok <==> !addr.spec_ip().spec_is_loopback() || old(self).allow_loopback
                    &&& r.0 is Ok ==> r.0->Ok_0 is Tcp
                    &&& r.0 is Err ==> (r.0->Err_0 matches DialError::Loopback(e) && e.says(
                        ErrorKind::ConnectionRefused,
                        "Outbound proxy cannot initiate connections on the loopback interface"@,
                    ))
                },
                Route::Refused(error) => {
                    &&& *final(self) == *old(self)
                    &&& r.0 == Err::<Dial<C>, DialError>(DialError::Channel(error))
                },
                // A service that the datapath provides is never dialed over
                // TCP.
                Route::Session(session) => exists|channel: Result<Option<C>, ChannelError>|
                    {
                        &&& #[trigger] old(self).channel_says(*final(self), handed, addr, channel)
                        &&& match channel {
                            Ok(Some(io)) => r.0 == Ok::<Dial<C>, DialError>(
                                Dial::Channel(io, channel_local()),
                            ),
                            Ok(None) => false,
                            Err(error) => r.0 == Err::<Dial<C>, DialError>(DialError::Channel(error)),
                        }
                    },
            },
            r.1 == match r.0 {
                Err(DialError::Channel(error)) => error.spec_counts(),
                _ => ChannelCounts::spec_none(),
            },
    {
        let (channel, counts) = self.dmesh_channel(handed, addr);
        let ghost said = channel;
        assert(old(self).channel_says(*self, handed, addr, said));
        let dialed = match channel {
            Ok(Some(io)) => {
                let local = SocketAddr::V4(SocketAddrV4 { ip: 0x7f00_0001, port: 0 });
                Ok(Dial::Channel(io, local))
            },
            Ok(None) => match check_loopback(addr, self.allow_loopback) {
                Ok(()) => Ok(Dial::Tcp),
                Err(e) => Err(DialError::Loopback(e)),
            },
            Err(error) => Err(DialError::Channel(error)),
        };
        (dialed, counts)
    }
}

/// The local address that a channel reports: 127.0.0.1, port 0.
pub open spec fn channel_local() -> SocketAddr {
    SocketAddr::V4(SocketAddrV4 { ip: 0x7f00_0001, port: 0 })
}

/// A dial that belongs to a session never falls through to TCP, whatever the
/// registry holds and the resolver says.
pub proof fn a_session_is_not_dialed_over_tcp<C, R>(
    before: DmeshOrTcp<C, R>,
    after: DmeshOrTcp<C, R>,
    handed: SessionHandle,
    addr: SocketAddr,
    verdict: Option<EndpointVerdict>,
    r: Result<Option<C>, ChannelError>,
)
    requires
        before.dmesh is Some,
        handed.0 is Some || before.session is Some,
        before.channel_outcome(after, handed, addr, verdict, r),
    ensures
        r is Err || r->Ok_0 is Some,
{
}

/// On a stack that serves DMA connections, no dial without a session reaches
/// an address that the datapath provides over TCP.
pub proof fn a_provided_address_needs_a_session<C, R>(
    connector: DmeshOrTcp<C, R>,
    addr: SocketAddr,
)
    requires
        connector.dmesh matches Some(d) && d.backends.spec_manages(addr),
        connector.dmesh_origin,
        connector.session is None,
    ensures
        connector.spec_route(SessionHandle(None), addr) == Route::Refused(
            ChannelError::Sessionless,
        ),
{
}

/// A dial belongs to the session that its connection carries, and to the one
/// that its stack is bound to where it carries none; where the two differ it is
/// refused. Without either it goes over TCP, but on a stack that serves DMA
/// connections it is refused where a session publishes the address as its
/// service or a placement names it. Without a datapath everything goes over TCP.
pub proof fn a_dial_belongs_to_its_session<C, R>(
    connector: DmeshOrTcp<C, R>,
    handed: SessionHandle,
    addr: SocketAddr,
    r: Route,
)
    requires
        call_ensures(DmeshOrTcp::<C, R>::route, (&connector, handed, addr), r),
    ensures
        connector.dmesh is None ==> r == Route::Tcp,
        connector.dmesh is Some ==> {
            let entries = connector.dmesh->0.backends.entries@;
            let placements = connector.dmesh->0.backends.placements@;
            let provided = (exists|j: int|
                0 <= j < entries.len() && (#[trigger] entries[j]).service == addr) || (exists|q: int|
                0 <= q < placements.len() && (#[trigger] placements[q]).0 == addr);
            &&& handed.0 is Some && connector.session is Some && handed.0->0 != connector.session->0
                ==> r == Route::Refused(
                ChannelError::SessionMismatch {
                    carried: handed.0->0,
                    bound: connector.session->0,
                },
            )
            &&& handed.0 is Some && (connector.session is None || connector.session->0
                == handed.0->0) ==> r == Route::Session(handed.0->0)
            &&& handed.0 is None && connector.session is Some ==> r == Route::Session(
                connector.session->0,
            )
            &&& handed.0 is None && connector.session is None && connector.dmesh_origin && provided
                ==> r == Route::Refused(ChannelError::Sessionless)
            &&& handed.0 is None && connector.session is None && (!connector.dmesh_origin
                || !provided) ==> r == Route::Tcp
        },
{
    if let Some(dmesh) = connector.dmesh {
        provided_is(dmesh.backends, addr);
    }
}

proof fn provided_is<C, R>(backends: Backends<C, R>, addr: SocketAddr)
    ensures
        backends.spec_manages(addr) <==> (exists|j: int|
            0 <= j < backends.entries@.len() && (#[trigger] backends.entries@[j]).service == addr)
            || (exists|q: int|
            0 <= q < backends.placements@.len() && (#[trigger] backends.placements@[q]).0 == addr),
{
    let entries = backends.entries@;
    let at = crate::backend::sessions_are(entries, addr);
    if at.len() > 0 {
        assert(entries[at[0]].service == addr);
    } else {
        assert forall|j: int| 0 <= j < entries.len() implies (#[trigger] entries[j]).service
            != addr by {
            if entries[j].service == addr {
                assert(at.contains(j));
            }
        }
    }
    let p = crate::backend::placement_is(backends.placements@, addr);
    if crate::backend::placement_of(backends.placements@, addr) is Some {
        assert(backends.placements@[p].0 == addr);
    }
}

/// What a dial for a session whose entry is the one at `i` is given, where the
/// address is not placed in another service: the channel, which reports
/// 127.0.0.1 and port zero as its local address, where no resolver is installed
/// or it says that the address is the session's own or live; and otherwise the
/// reason why not. It is never dialed over TCP.
pub proof fn a_session_is_dialed_through_its_channel<C, R: Fn(SocketAddr) -> EndpointVerdict>(
    handed: SessionHandle,
    addr: SocketAddr,
    session: SessionToken,
    i: int,
)
    ensures
        forall|connector: &mut DmeshOrTcp<C, R>, r: (Result<Dial<C>, DialError>, ChannelCounts)|
            #[trigger]
            call_ensures(DmeshOrTcp::<C, R>::dial, (connector, handed, addr), r) && connector.wf()
                && connector.dmesh is Some && 0 <= i < connector.dmesh->0.backends.entries@.len()
                && connector.dmesh->0.backends.entries@[i].session == session && (handed.0 == Some(
                session,
            ) && (connector.session is None || connector.session == Some(session))
                || handed.0 is None && connector.session == Some(session)) && (forall|q: int|
                0 <= q < connector.dmesh->0.backends.placements@.len() && (
                #[trigger] connector.dmesh->0.backends.placements@[q]).0 == addr
                    ==> connector.dmesh->0.backends.placements@[q].1
                    == connector.dmesh->0.backends.entries@[i].service) ==> {
                let backends = connector.dmesh->0.backends;
                let io = backends.entries@[i].io;
                let local = SocketAddr::V4(SocketAddrV4 { ip: 0x7f00_0001, port: 0 });
                let given = if io is Some {
                    Ok::<Dial<C>, DialError>(Dial::Channel(io->0, local))
                } else {
                    Err::<Dial<C>, DialError>(
                        DialError::Channel(
                            ChannelError::Take { session, error: TakeError::AlreadyTaken },
                        ),
                    )
                };
                &&& backends.endpoints is None ==> r.0 == given
                &&& backends.endpoints is Some ==> exists|verdict: EndpointVerdict|
                    {
                        &&& #[trigger] backends.endpoints->0.ensures((addr,), verdict)
                        &&& r.0 == match verdict {
                            EndpointVerdict::SessionOwn => given,
                            EndpointVerdict::Live => given,
                            EndpointVerdict::Unresolved => Err::<Dial<C>, DialError>(
                                DialError::Channel(
                                    ChannelError::Take {
                                        session,
                                        error: TakeError::EndpointUnresolved,
                                    },
                                ),
                            ),
                            EndpointVerdict::Remote => Err::<Dial<C>, DialError>(
                                DialError::Channel(
                                    ChannelError::Take {
                                        session,
                                        error: TakeError::EndpointRemote,
                                    },
                                ),
                            ),
                            EndpointVerdict::Stale => Err::<Dial<C>, DialError>(
                                DialError::Channel(
                                    ChannelError::Take { session, error: TakeError::EndpointStale },
                                ),
                            ),
                        }
                    }
            },
{
    assert forall|connector: &mut DmeshOrTcp<C, R>, r: (Result<Dial<C>, DialError>, ChannelCounts)|
        #[trigger]
        call_ensures(DmeshOrTcp::<C, R>::dial, (connector, handed, addr), r) && connector.wf()
            && connector.dmesh is Some && 0 <= i < connector.dmesh->0.backends.entries@.len()
            && connector.dmesh->0.backends.entries@[i].session == session && (handed.0 == Some(
            session,
        ) && (connector.session is None || connector.session == Some(session)) || handed.0 is None
            && connector.session == Some(session)) && (forall|q: int|
            0 <= q < connector.dmesh->0.backends.placements@.len() && (
            #[trigger] connector.dmesh->0.backends.placements@[q]).0 == addr
                ==> connector.dmesh->0.backends.placements@[q].1
                == connector.dmesh->0.backends.entries@[i].service) implies {
        let backends = connector.dmesh->0.backends;
        let io = backends.entries@[i].io;
        let local = SocketAddr::V4(SocketAddrV4 { ip: 0x7f00_0001, port: 0 });
        let given = if io is Some {
            Ok::<Dial<C>, DialError>(Dial::Channel(io->0, local))
        } else {
            Err::<Dial<C>, DialError>(
                DialError::Channel(ChannelError::Take { session, error: TakeError::AlreadyTaken }),
            )
        };
        &&& backends.endpoints is None ==> r.0 == given
        &&& backends.endpoints is Some ==> exists|verdict: EndpointVerdict|
            {
                &&& #[trigger] backends.endpoints->0.ensures((addr,), verdict)
                &&& r.0 == match verdict {
                    EndpointVerdict::SessionOwn => given,
                    EndpointVerdict::Live => given,
                    EndpointVerdict::Unresolved => Err::<Dial<C>, DialError>(
                        DialError::Channel(
                            ChannelError::Take { session, error: TakeError::EndpointUnresolved },
                        ),
                    ),
                    EndpointVerdict::Remote => Err::<Dial<C>, DialError>(
                        DialError::Channel(
                            ChannelError::Take { session, error: TakeError::EndpointRemote },
                        ),
                    ),
                    EndpointVerdict::Stale => Err::<Dial<C>, DialError>(
                        DialError::Channel(
                            ChannelError::Take { session, error: TakeError::EndpointStale },
                        ),
                    ),
                }
            }
    } by {
        let backends = connector.dmesh->0.backends;
        crate::backend::entry_is(backends.entries@, session, i);
        let p = crate::backend::placement_is(backends.placements@, addr);
        assert(!backends.misplaced(session, addr)) by {
            if backends.misplaced(session, addr) {
                assert(backends.placements@[p].0 == addr);
            }
        }
        assert(connector.spec_route(handed, addr) == Route::Session(session));
        let channel = choose|channel: Result<Option<C>, ChannelError>|
            {
                &&& #[trigger] connector.channel_says(*final(connector), handed, addr, channel)
                &&& match channel {
                    Ok(Some(io)) => r.0 == Ok::<Dial<C>, DialError>(
                        Dial::Channel(io, channel_local()),
                    ),
                    Ok(None) => false,
                    Err(error) => r.0 == Err::<Dial<C>, DialError>(DialError::Channel(error)),
                }
            };
        if backends.endpoints is Some {
            assert(connector.resolver_decides(session, addr));
            let verdict = choose|verdict: EndpointVerdict|
                backends.endpoints->0.ensures((addr,), verdict)
                    && #[trigger] connector.channel_outcome(
                    *final(connector),
                    handed,
                    addr,
                    Some(verdict),
                    channel,
                );
            let (after, take) = choose|after: Backends<C, R>, take: Result<C, TakeError>|
                {
                    &&& #[trigger] backends.take_outcome(after, session, addr, Some(verdict), take)
                    &&& *final(connector) == connector.with_backends(after)
                    &&& channel == taken(session, take)
                };
            assert(backends.endpoints->0.ensures((addr,), verdict));
        } else {
            assert(connector.channel_outcome(*final(connector), handed, addr, None, channel));
            let (after, take) = choose|after: Backends<C, R>, take: Result<C, TakeError>|
                {
                    &&& #[trigger] backends.take_outcome(after, session, addr, None, take)
                    &&& *final(connector) == connector.with_backends(after)
                    &&& channel == taken(session, take)
                };
        }
    }
}

/// A dial is refused, and nothing is dialed over TCP for it, where its
/// connection carries another session than its stack is bound to, where its
/// session has no entry, where the last placement of the address is in another
/// service, and where it has no session on a stack that serves DMA connections
/// and the address is provided.
pub proof fn a_dial_is_refused_by_name<C, R: Fn(SocketAddr) -> EndpointVerdict>(
    handed: SessionHandle,
    addr: SocketAddr,
    session: SessionToken,
    i: int,
    p: int,
)
    ensures
        forall|connector: &mut DmeshOrTcp<C, R>, r: (Result<Dial<C>, DialError>, ChannelCounts)|
            #[trigger]
            call_ensures(DmeshOrTcp::<C, R>::dial, (connector, handed, addr), r) && connector.wf()
                && connector.dmesh is Some ==> {
                let backends = connector.dmesh->0.backends;
                let entries = backends.entries@;
                let placements = backends.placements@;
                let owns = handed.0 == Some(session) && (connector.session is None
                    || connector.session == Some(session)) || handed.0 is None && connector.session
                    == Some(session);
                &&& handed.0 is Some && connector.session is Some && handed.0 != connector.session
                    ==> r.0 == Err::<Dial<C>, DialError>(
                    DialError::Channel(
                        ChannelError::SessionMismatch {
                            carried: handed.0->0,
                            bound: connector.session->0,
                        },
                    ),
                ) && *final(connector) == *connector
                &&& owns && (forall|j: int|
                    0 <= j < entries.len() ==> (#[trigger] entries[j]).session != session) ==> r.0
                    == Err::<Dial<C>, DialError>(
                    DialError::Channel(
                        ChannelError::Take { session, error: TakeError::NotPublished },
                    ),
                )
                &&& owns && 0 <= i < entries.len() && entries[i].session == session && 0 <= p
                    < placements.len() && placements[p].0 == addr && placements[p].1
                    != entries[i].service && (forall|q: int|
                    p < q < placements.len() ==> (#[trigger] placements[q]).0 != addr) ==> r.0
                    == Err::<Dial<C>, DialError>(
                    DialError::Channel(
                        ChannelError::Take { session, error: TakeError::TargetMismatch },
                    ),
                )
                &&& handed.0 is None && connector.session is None && connector.dmesh_origin && ((0
                    <= i < entries.len() && entries[i].service == addr) || (0 <= p
                    < placements.len() && placements[p].0 == addr)) ==> r.0 == Err::<
                    Dial<C>,
                    DialError,
                >(DialError::Channel(ChannelError::Sessionless)) && *final(connector) == *connector
            },
{
    assert forall|connector: &mut DmeshOrTcp<C, R>, r: (Result<Dial<C>, DialError>, ChannelCounts)|
        #[trigger]
        call_ensures(DmeshOrTcp::<C, R>::dial, (connector, handed, addr), r) && connector.wf()
            && connector.dmesh is Some implies {
        let backends = connector.dmesh->0.backends;
        let entries = backends.entries@;
        let placements = backends.placements@;
        let owns = handed.0 == Some(session) && (connector.session is None || connector.session
            == Some(session)) || handed.0 is None && connector.session == Some(session);
        &&& owns && (forall|j: int|
            0 <= j < entries.len() ==> (#[trigger] entries[j]).session != session) ==> r.0 == Err::<
            Dial<C>,
            DialError,
        >(DialError::Channel(ChannelError::Take { session, error: TakeError::NotPublished }))
        &&& owns && 0 <= i < entries.len() && entries[i].session == session && 0 <= p
            < placements.len() && placements[p].0 == addr && placements[p].1 != entries[i].service
            && (forall|q: int| p < q < placements.len() ==> (#[trigger] placements[q]).0 != addr)
            ==> r.0 == Err::<Dial<C>, DialError>(
            DialError::Channel(ChannelError::Take { session, error: TakeError::TargetMismatch }),
        )
        &&& (0 <= i < entries.len() && entries[i].service == addr) || (0 <= p < placements.len()
            && placements[p].0 == addr) ==> backends.spec_manages(addr)
    } by {
        let backends = connector.dmesh->0.backends;
        let entries = backends.entries@;
        let placements = backends.placements@;
        provided_is(backends, addr);
        if 0 <= i < entries.len() && entries[i].service == addr {
            assert(entries[i].service == addr);
        }
        if 0 <= p < placements.len() && placements[p].0 == addr {
            assert(placements[p].0 == addr);
        }
        let owns = handed.0 == Some(session) && (connector.session is None || connector.session
            == Some(session)) || handed.0 is None && connector.session == Some(session);
        if owns {
            assert(connector.spec_route(handed, addr) == Route::Session(session));
            let unknown = forall|j: int|
                0 <= j < entries.len() ==> (#[trigger] entries[j]).session != session;
            let elsewhere = 0 <= i < entries.len() && entries[i].session == session && 0 <= p
                < placements.len() && placements[p].0 == addr && placements[p].1
                != entries[i].service && (forall|q: int|
                p < q < placements.len() ==> (#[trigger] placements[q]).0 != addr);
            if unknown {
                crate::backend::position_finds(entries, session);
                assert(!backends.published(session));
            }
            if elsewhere {
                crate::backend::entry_is(entries, session, i);
                let o = crate::backend::placement_is(placements, addr);
                assert(placements[p].0 == addr);
                assert(placements[o].0 == addr);
                assert(backends.misplaced(session, addr));
            }
            if unknown || elsewhere {
                assert(!connector.resolver_decides(session, addr));
                let channel = choose|channel: Result<Option<C>, ChannelError>|
                    {
                        &&& #[trigger] connector.channel_says(
                            *final(connector),
                            handed,
                            addr,
                            channel,
                        )
                        &&& match channel {
                            Ok(Some(io)) => r.0 == Ok::<Dial<C>, DialError>(
                                Dial::Channel(io, channel_local()),
                            ),
                            Ok(None) => false,
                            Err(error) => r.0 == Err::<Dial<C>, DialError>(
                                DialError::Channel(error),
                            ),
                        }
                    };
                assert(connector.channel_outcome(*final(connector), handed, addr, None, channel));
            }
        }
    }
}

/// What the datapath does not provide is dialed over TCP: anywhere but on the
/// loopback interface, and there too where that is allowed. So it is without a
/// datapath, and for a dial without a session to an address that nobody
/// publishes and nothing places, or on a stack that serves no DMA connection.
pub proof fn everything_else_is_dialed_over_tcp<C, R: Fn(SocketAddr) -> EndpointVerdict>(
    addr: SocketAddr,
)
    ensures
        forall|
            connector: &mut DmeshOrTcp<C, R>,
            handed: SessionHandle,
            r: (Result<Dial<C>, DialError>, ChannelCounts),
        | #[trigger]
            call_ensures(DmeshOrTcp::<C, R>::dial, (connector, handed, addr), r) && (connector.dmesh
                is None || (handed.0 is None && connector.session is None && (
            !connector.dmesh_origin || ((forall|j: int|
                0 <= j < connector.dmesh->0.backends.entries@.len() ==> (
                #[trigger] connector.dmesh->0.backends.entries@[j]).service != addr) && (forall|
                q: int,
            |
                0 <= q < connector.dmesh->0.backends.placements@.len() ==> (
                #[trigger] connector.dmesh->0.backends.placements@[q]).0 != addr))))) ==> {
                let local = match addr {
                    SocketAddr::V4(a) => 0x7f00_0000 <= a.ip <= 0x7fff_ffff,
                    SocketAddr::V6(a) => a.ip == 1,
                };
                &&& !local || connector.allow_loopback ==> r.0 == Ok::<Dial<C>, DialError>(
                    Dial::Tcp,
                )
                &&& local && !connector.allow_loopback ==> (r.0 matches Err(DialError::Loopback(e))
                    && e.says(
                    ErrorKind::ConnectionRefused,
                    "Outbound proxy cannot initiate connections on the loopback interface"@,
                ))
                &&& *final(connector) == *connector
                &&& !r.1.session_mismatch && !r.1.sessionless_refusal && !r.1.take_error
                    && !r.1.target_mismatch
            },
{
    assert forall|
        connector: &mut DmeshOrTcp<C, R>,
        handed: SessionHandle,
        r: (Result<Dial<C>, DialError>, ChannelCounts),
    | #[trigger]
        call_ensures(DmeshOrTcp::<C, R>::dial, (connector, handed, addr), r) && (connector.dmesh
            is None || (handed.0 is None && connector.session is None && (!connector.dmesh_origin
            || ((forall|j: int|
            0 <= j < connector.dmesh->0.backends.entries@.len() ==> (
            #[trigger] connector.dmesh->0.backends.entries@[j]).service != addr) && (forall|q: int|
            0 <= q < connector.dmesh->0.backends.placements@.len() ==> (
            #[trigger] connector.dmesh->0.backends.placements@[q]).0
                != addr))))) implies connector.spec_route(handed, addr) == Route::Tcp by {
        if let Some(dmesh) = connector.dmesh {
            provided_is(dmesh.backends, addr);
        }
    }
}

/// A dial counts the reason why it was refused, a target in another service
/// twice over, and nothing where it was not.
pub proof fn a_refused_dial_is_counted(error: ChannelError, r: ChannelCounts)
    requires
        call_ensures(ChannelError::counts, (&error,), r),
    ensures
        match error {
            ChannelError::SessionMismatch { carried, bound } => r.session_mismatch
                && !r.sessionless_refusal && !r.take_error && !r.target_mismatch,
            ChannelError::Sessionless => !r.session_mismatch && r.sessionless_refusal
                && !r.take_error && !r.target_mismatch,
            ChannelError::Take { session, error: TakeError::TargetMismatch } => !r.session_mismatch
                && !r.sessionless_refusal && r.take_error && r.target_mismatch,
            ChannelError::Take { session, error } => !r.session_mismatch && !r.sessionless_refusal
                && r.take_error && !r.target_mismatch,
        },
{
}

/// What a dial returns says what it counts: the counts of the refusal where it
/// was refused, and none otherwise.
pub proof fn a_dial_counts_its_refusal<C, R: Fn(SocketAddr) -> EndpointVerdict>(
    handed: SessionHandle,
    addr: SocketAddr,
    error: ChannelError,
    counts: ChannelCounts,
)
    requires
        call_ensures(ChannelError::counts, (&error,), counts),
    ensures
        forall|connector: &mut DmeshOrTcp<C, R>, r: (Result<Dial<C>, DialError>, ChannelCounts)|
            #[trigger]
            call_ensures(DmeshOrTcp::<C, R>::dial, (connector, handed, addr), r) ==> {
                &&& r.0 == Err::<Dial<C>, DialError>(DialError::Channel(error)) ==> r.1 == counts
                &&& r.0 is Ok || r.0->Err_0 is Loopback ==> !r.1.session_mismatch
                    && !r.1.sessionless_refusal && !r.1.take_error && !r.1.target_mismatch
            },
        forall|
            connector: &mut DmeshOrTcp<C, R>,
            r: (Result<Option<C>, ChannelError>, ChannelCounts),
        | #[trigger]
            call_ensures(DmeshOrTcp::<C, R>::dmesh_channel, (connector, handed, addr), r) ==> {
                &&& r.0 == Err::<Option<C>, ChannelError>(error) ==> r.1 == counts
                &&& r.0 is Ok ==> !r.1.session_mismatch && !r.1.sessionless_refusal
                    && !r.1.take_error && !r.1.target_mismatch
            },
{
}

/// Each counter that is set is moved, and is the one of its name.
pub proof fn counts_move_their_counters(counts: ChannelCounts, metrics: SessionMetrics)
    requires
        call_ensures(ChannelCounts::record, (counts, &metrics), ()),
    ensures
        counts.session_mismatch ==> counted(metrics.backend_session_mismatches),
        counts.sessionless_refusal ==> counted(metrics.backend_sessionless_refusals),
        counts.take_error ==> counted(metrics.backend_take_errors),
        counts.target_mismatch ==> counted(metrics.backend_target_mismatches),
{
}

/// A refusal says which sessions differ, which address was dialed without one,
/// or for which address and session a take failed and why.
pub proof fn a_refusal_says_why(
    error: ChannelError,
    addr: &str,
    why: TakeError,
    text: &'static str,
    a: SessionToken,
    first: String,
    b: SessionToken,
    second: String,
    r: IoError,
)
    requires
        call_ensures(ChannelError::to_error, (&error, addr), r),
        call_ensures(TakeError::message, (&why,), text),
        call_ensures(SessionToken::display, (&a,), first),
        call_ensures(SessionToken::display, (&b,), second),
    ensures
        r.kind == ErrorKind::NotConnected,
        error == (ChannelError::SessionMismatch { carried: a, bound: b }) ==> r.message@
            == "dmesh session mismatch: connection "@ + first@ + ", stack "@ + second@,
        error == ChannelError::Sessionless ==> r.message@ == "dmesh-provided address "@ + addr@
            + " dialed without a session"@,
        error == (ChannelError::Take { session: a, error: why }) ==> r.message@
            == "dmesh backend channel for "@ + addr@ + " session "@ + first@ + ": "@ + text@,
{
}

/// The loopback interface is 127.0.0.0/8 and ::1, and is refused exactly where
/// it is not allowed.
pub proof fn loopback_is_refused_unless_allowed(
    addr: SocketAddr,
    allow_loopback: bool,
    r: Result<(), IoError>,
)
    requires
        call_ensures(check_loopback, (addr, allow_loopback), r),
    ensures
        ({
            let local = match addr {
                SocketAddr::V4(a) => 0x7f00_0000 <= a.ip <= 0x7fff_ffff,
                SocketAddr::V6(a) => a.ip == 1,
            };
            r is Err <==> local && !allow_loopback
        }),
        r is Err ==> r->Err_0.says(
            ErrorKind::ConnectionRefused,
            "Outbound proxy cannot initiate connections on the loopback interface"@,
        ),
{
}

/// An endpoint is dialed for no session until it is named, and the name of its
/// session changes neither its address nor its TLS.
pub proof fn an_endpoint_is_dialed_for_its_session<T>(
    addr: SocketAddr,
    tls: T,
    session: SessionHandle,
)
    ensures
        forall|r: Connect<T>| #[trigger]
            call_ensures(Connect::<T>::new, (addr, tls), r) ==> r.addr == addr && r.tls == tls
                && r.session.0 is None,
        forall|before: Connect<T>, r: Connect<T>| #[trigger]
            call_ensures(Connect::<T>::with_session, (before, session), r) ==> r.addr
                == before.addr && r.tls == before.tls && r.session == session,
{
}

/// A dial that is not refused counts nothing, and an endpoint is paired with the
/// session that dials it.
pub proof fn nothing_is_counted_without_a_refusal<E>(endpoint: E, session: SessionHandle)
    ensures
        forall|r: ChannelCounts| #[trigger]
            call_ensures(ChannelCounts::none, (), r) ==> !r.session_mismatch
                && !r.sessionless_refusal && !r.take_error && !r.target_mismatch,
        forall|r: SessionEndpoint<E>| #[trigger]
            call_ensures(SessionEndpoint::<E>::new, (endpoint, session), r) ==> r.endpoint
                == endpoint && r.session == session,
{
}

/// A dial that takes a channel leaves the others: only the entry of its session
/// has none any more. A dial that takes none leaves everything as it is.
pub proof fn a_dial_takes_one_channel<C, R: Fn(SocketAddr) -> EndpointVerdict>(
    handed: SessionHandle,
    addr: SocketAddr,
    session: SessionToken,
    i: int,
)
    ensures
        forall|connector: &mut DmeshOrTcp<C, R>, r: (Result<Dial<C>, DialError>, ChannelCounts)|
            #[trigger]
            call_ensures(DmeshOrTcp::<C, R>::dial, (connector, handed, addr), r) && connector.wf()
                && connector.dmesh is Some && 0 <= i < connector.dmesh->0.backends.entries@.len()
                && connector.dmesh->0.backends.entries@[i].session == session && (handed.0 == Some(
                session,
            ) && (connector.session is None || connector.session == Some(session))
                || handed.0 is None && connector.session == Some(session)) ==> {
                let before = connector.dmesh->0.backends;
                let after = final(connector).dmesh->0.backends;
                &&& final(connector).dmesh is Some
                &&& r.0 is Ok ==> after.entries@ == before.entries@.update(
                    i,
                    crate::backend::Entry {
                        session,
                        service: before.entries@[i].service,
                        io: None,
                    },
                ) && after.placements == before.placements && after.endpoints == before.endpoints
                &&& r.0 is Err ==> after == before
                &&& final(connector).session == connector.session
                &&& final(connector).dmesh_origin == connector.dmesh_origin
                &&& final(connector).allow_loopback == connector.allow_loopback
            },
{
    assert forall|connector: &mut DmeshOrTcp<C, R>, r: (Result<Dial<C>, DialError>, ChannelCounts)|
        #[trigger]
        call_ensures(DmeshOrTcp::<C, R>::dial, (connector, handed, addr), r) && connector.wf()
            && connector.dmesh is Some && 0 <= i < connector.dmesh->0.backends.entries@.len()
            && connector.dmesh->0.backends.entries@[i].session == session && (handed.0 == Some(
            session,
        ) && (connector.session is None || connector.session == Some(session)) || handed.0 is None
            && connector.session == Some(session)) implies {
        let (before, after) = (connector.dmesh->0.backends, final(connector).dmesh->0.backends);
        &&& final(connector).dmesh is Some
        &&& r.0 is Ok ==> after.entries@ == before.entries@.update(
            i,
            crate::backend::Entry { session, service: before.entries@[i].service, io: None },
        ) && after.placements == before.placements && after.endpoints == before.endpoints
        &&& r.0 is Err ==> after == before
        &&& final(connector).session == connector.session
        &&& final(connector).dmesh_origin == connector.dmesh_origin
        &&& final(connector).allow_loopback == connector.allow_loopback
    } by {
        let backends = connector.dmesh->0.backends;
        crate::backend::entry_is(backends.entries@, session, i);
        assert(connector.spec_route(handed, addr) == Route::Session(session));
        let channel = choose|channel: Result<Option<C>, ChannelError>|
            {
                &&& #[trigger] connector.channel_says(*final(connector), handed, addr, channel)
                &&& match channel {
                    Ok(Some(io)) => r.0 == Ok::<Dial<C>, DialError>(
                        Dial::Channel(io, channel_local()),
                    ),
                    Ok(None) => false,
                    Err(error) => r.0 == Err::<Dial<C>, DialError>(DialError::Channel(error)),
                }
            };
        let verdict: Option<EndpointVerdict> = if connector.resolver_decides(session, addr) {
            let verdict = choose|verdict: EndpointVerdict|
                backends.endpoints->0.ensures((addr,), verdict)
                    && #[trigger] connector.channel_outcome(
                    *final(connector),
                    handed,
                    addr,
                    Some(verdict),
                    channel,
                );
            Some(verdict)
        } else {
            None
        };
        assert(connector.channel_outcome(*final(connector), handed, addr, verdict, channel));
        let (after, take) = choose|after: Backends<C, R>, take: Result<C, TakeError>|
            {
                &&& #[trigger] backends.take_outcome(after, session, addr, verdict, take)
                &&& *final(connector) == connector.with_backends(after)
                &&& channel == taken(session, take)
            };
        assert(final(connector).dmesh->0.backends == after);
    }
}

} // verus!
