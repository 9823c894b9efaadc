//! What becomes of a connection that the driver reports.
use vstd::prelude::*;

use crate::net::SocketAddr;
use crate::router::config::BackendProto;
use crate::session::{FlowId, SessionToken};

verus! {

/// What the requests of a client connection are routed by.
#[derive(Clone, Copy, Debug, PartialEq, Eq, Structural)]
pub struct Ctx {
    /// Where the connection was bound for.
    pub dst: SocketAddr,
    pub session: SessionToken,
}

/// What becomes of a connection.
#[derive(Clone, Copy, Debug, PartialEq, Eq, Structural)]
pub enum Accepted {
    /// The driver is gone: the acceptor ends.
    Stop,
    /// The host end provides the service at this address: open a client on it.
    Backend(SocketAddr, BackendProto),
    /// Terminate HTTP/2 on it and route each stream.
    Client(Ctx),
}

/// What becomes of a ready connection once its endpoint was sent to the driver,
/// which pumps its bytes: without that it would never carry any.
pub fn registered(session: SessionToken, flow: &FlowId, sent: bool, proto: BackendProto) -> (r:
    Accepted)
    ensures
        r == if !sent {
            Accepted::Stop
        } else if flow.is_backend {
            Accepted::Backend(SocketAddr::V4(flow.dst), proto)
        } else {
            Accepted::Client(Ctx { dst: SocketAddr::V4(flow.dst), session })
        },
{
    if !sent {
        return Accepted::Stop;
    }
    let dst: SocketAddr = SocketAddr::V4(flow.dst);
    if flow.is_backend {
        Accepted::Backend(dst, proto)
    } else {
        Accepted::Client(Ctx { dst, session })
    }
}

/// A connection whose endpoint could not be handed to the driver ends the
/// acceptor; one whose host end provides a service is a backend of its
/// destination, and any other is a client bound for it.
pub proof fn a_connection_is_a_backend_or_a_client(
    session: SessionToken,
    flow: FlowId,
    sent: bool,
    proto: BackendProto,
    r: Accepted,
)
    requires
        call_ensures(registered, (session, &flow, sent, proto), r),
    ensures
        r is Stop <==> !sent,
        r is Backend <==> sent && flow.is_backend,
        r is Client <==> sent && !flow.is_backend,
        r is Backend ==> r == Accepted::Backend(SocketAddr::V4(flow.dst), proto),
        r is Client ==> r == Accepted::Client(Ctx { dst: SocketAddr::V4(flow.dst), session }),
{
}

} // verus!
