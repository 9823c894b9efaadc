use dmesh::backend::{BackendKey, Backends, EndpointVerdict, TakeError};
use dmesh::connect::{
    check_loopback, ChannelCounts, ChannelError, Connect, Dial, DialError, Dmesh, DmeshOrTcp, Route,
    SessionEndpoint, SessionHandle,
};
use dmesh::io::ErrorKind;
use dmesh::metrics::SessionMetrics;
use dmesh::net::{SocketAddr, SocketAddrV4};
use dmesh::session::SessionToken;

type Resolve = fn(SocketAddr) -> EndpointVerdict;
type Connector = DmeshOrTcp<u64, Resolve>;

fn v4(a: u32, b: u32, c: u32, d: u32, port: u16) -> SocketAddr {
    SocketAddr::V4(SocketAddrV4 { ip: (a << 24) | (b << 16) | (c << 8) | d, port })
}

fn service(last: u32) -> SocketAddr {
    v4(10, 96, 0, last, 9092)
}

fn connector() -> Connector {
    DmeshOrTcp {
        dmesh: Some(Dmesh { backends: Backends::new(), metrics: SessionMetrics::new() }),
        session: None,
        dmesh_origin: true,
        allow_loopback: false,
    }
}

fn publish(c: &mut Connector, addr: SocketAddr, session: SessionToken) -> BackendKey {
    let key = BackendKey::new(addr, session);
    let channel = ((session.slot as u64) << 32) | session.generation as u64;
    c.dmesh.as_mut().unwrap().backends.publish(key, channel).unwrap();
    key
}

/// Dials for a channel, and counts what came of it.
fn channel(
    c: &mut Connector,
    handed: SessionHandle,
    addr: SocketAddr,
) -> Result<Option<u64>, ChannelError> {
    let (r, counts) = c.dmesh_channel(handed, addr);
    if let Some(dmesh) = &c.dmesh {
        counts.record(&dmesh.metrics);
    }
    r
}

/// A session bound to a single-session stack, with nothing carried.
fn baked(
    c: &mut Connector,
    session: SessionToken,
    addr: SocketAddr,
) -> Result<Option<u64>, ChannelError> {
    c.session = Some(session);
    let r = channel(c, SessionHandle(None), addr);
    c.session = None;
    r
}

/// A session carried by the connection through a shared stack.
fn carried(
    c: &mut Connector,
    session: SessionToken,
    addr: SocketAddr,
) -> Result<Option<u64>, ChannelError> {
    channel(c, SessionHandle(Some(session)), addr)
}

fn take(c: &mut Connector, session: SessionToken, addr: SocketAddr) -> Result<u64, TakeError> {
    c.dmesh.as_mut().unwrap().backends.take_session(session, addr)
}

fn metrics(c: &Connector) -> &SessionMetrics {
    &c.dmesh.as_ref().unwrap().metrics
}

#[test]
fn two_same_service_sessions_take_their_own_channels() {
    let mut d = connector();
    let addr = service(11);
    let first_session = SessionToken::new(0, 0, 0);
    let second_session = SessionToken::new(0, 1, 0);
    let first = publish(&mut d, addr, first_session);
    let second = publish(&mut d, addr, second_session);
    assert_ne!(first, second, "distinct backend keys");
    assert_eq!(d.dmesh.as_ref().unwrap().backends.sessions_for(&addr).len(), 2);

    assert_eq!(baked(&mut d, second_session, addr).unwrap(), Some(1 << 32));
    assert_eq!(take(&mut d, second_session, addr).unwrap_err(), TakeError::AlreadyTaken);
    assert_eq!(baked(&mut d, first_session, addr).unwrap(), Some(0));
    assert_eq!(take(&mut d, first_session, addr).unwrap_err(), TakeError::AlreadyTaken);
}

#[test]
fn carried_sessions_take_their_own_channels_through_one_connector() {
    let mut d = connector();
    let addr = service(11);
    let first_session = SessionToken::new(0, 0, 0);
    let second_session = SessionToken::new(0, 1, 0);
    publish(&mut d, addr, first_session);
    publish(&mut d, addr, second_session);

    carried(&mut d, second_session, addr).unwrap().unwrap();
    assert_eq!(take(&mut d, second_session, addr).unwrap_err(), TakeError::AlreadyTaken);
    carried(&mut d, first_session, addr).unwrap().unwrap();
    assert_eq!(take(&mut d, first_session, addr).unwrap_err(), TakeError::AlreadyTaken);
    assert_eq!(metrics(&d).backend_take_errors.get(), 0);
    assert_eq!(metrics(&d).backend_session_mismatches.get(), 0);
}

#[test]
fn a_carried_session_mismatch_is_refused() {
    let mut d = connector();
    let addr = service(11);
    let baked_session = SessionToken::new(0, 0, 0);
    let carried_session = SessionToken::new(0, 1, 0);
    publish(&mut d, addr, baked_session);
    publish(&mut d, addr, carried_session);

    d.session = Some(baked_session);
    let error = channel(&mut d, SessionHandle(Some(carried_session)), addr).unwrap_err();
    let io = error.to_error("10.96.0.11:9092");
    assert_eq!(io.kind, ErrorKind::NotConnected);
    assert_eq!(io.message, "dmesh session mismatch: connection w0/s1/g0, stack w0/s0/g0");
    take(&mut d, carried_session, addr).unwrap();
    take(&mut d, baked_session, addr).unwrap();
    assert_eq!(metrics(&d).backend_session_mismatches.get(), 1);
}

#[test]
fn a_sessionless_dial_to_a_provided_address_is_refused() {
    let mut d = connector();
    let addr = service(12);
    publish(&mut d, addr, SessionToken::new(0, 0, 0));

    let error = channel(&mut d, SessionHandle(None), addr).unwrap_err();
    let io = error.to_error("10.96.0.12:9092");
    assert_eq!(io.kind, ErrorKind::NotConnected);
    assert_eq!(io.message, "dmesh-provided address 10.96.0.12:9092 dialed without a session");
    assert_eq!(metrics(&d).backend_sessionless_refusals.get(), 1);

    d.dmesh_origin = false;
    assert!(channel(&mut d, SessionHandle(None), addr).unwrap().is_none());
    assert_eq!(metrics(&d).backend_sessionless_refusals.get(), 1);
}

#[test]
fn a_meshed_service_is_not_dialed_over_tcp() {
    let mut d = connector();
    let addr = service(12);
    let key = publish(&mut d, addr, SessionToken::new(0, 0, 0));

    baked(&mut d, key.session, addr).unwrap().unwrap();
    // Taken, then withdrawn by the close: both are refusals, not fallbacks.
    let error = baked(&mut d, key.session, addr).unwrap_err();
    assert_eq!(error.to_error("10.96.0.12:9092").kind, ErrorKind::NotConnected);
    d.dmesh.as_mut().unwrap().backends.remove(&key);
    assert!(baked(&mut d, key.session, addr).is_err());
    assert_eq!(metrics(&d).backend_take_errors.get(), 2);
}

#[test]
fn an_unmeshed_address_falls_through_to_tcp() {
    let addr = service(13);
    let session = SessionToken::new(0, 0, 0);
    let mut stock: Connector = DmeshOrTcp {
        dmesh: None,
        session: Some(session),
        dmesh_origin: true,
        allow_loopback: false,
    };
    assert!(channel(&mut stock, SessionHandle(None), addr).unwrap().is_none());
    let mut d = connector();
    assert!(channel(&mut d, SessionHandle(None), addr).unwrap().is_none());
    assert_eq!(metrics(&d).backend_take_errors.get(), 0);
}

#[test]
fn a_cross_service_target_has_a_stable_metric() {
    let mut d = connector();
    let selected = v4(10, 244, 0, 11, 9092);
    let other = v4(10, 244, 0, 99, 9092);
    let session = SessionToken::new(0, 0, 0);
    publish(&mut d, service(11), session);
    d.dmesh.as_mut().unwrap().backends.place_targets(vec![
        (service(11), service(11)),
        (selected, service(11)),
        (other, service(99)),
    ]);

    assert!(baked(&mut d, session, other).is_err());
    assert_eq!(metrics(&d).backend_take_errors.get(), 1);
    assert_eq!(metrics(&d).backend_target_mismatches.get(), 1);
}

#[test]
fn the_next_generation_is_admitted_immediately() {
    let mut d = connector();
    let addr = service(14);
    let old = publish(&mut d, addr, SessionToken::new(0, 0, 0));
    baked(&mut d, old.session, addr).unwrap().unwrap();
    d.dmesh.as_mut().unwrap().backends.remove(&old);

    let new = publish(&mut d, addr, SessionToken::new(0, 0, 1));
    assert_eq!(d.dmesh.as_ref().unwrap().backends.sessions_for(&addr).len(), 1);
    baked(&mut d, new.session, addr).unwrap().unwrap();
}

#[test]
fn the_carried_session_reaches_the_connect_stack() {
    let session = SessionToken::new(0, 7, 3);
    let endpoint = SessionEndpoint::new("endpoint", SessionHandle(Some(session)));
    let connect = Connect::new(v4(10, 244, 0, 7, 4140), endpoint.endpoint)
        .with_session(endpoint.session);
    assert_eq!(connect.tls, "endpoint");
    assert_eq!(connect.session, SessionHandle(Some(session)));
}

#[test]
fn loopback_is_refused_over_tcp_alone() {
    let home = v4(127, 0, 0, 1, 80);
    let refused = check_loopback(home, false).unwrap_err();
    assert_eq!(refused.kind, ErrorKind::ConnectionRefused);
    assert_eq!(
        refused.message,
        "Outbound proxy cannot initiate connections on the loopback interface"
    );
    assert!(check_loopback(home, true).is_ok());
    assert!(check_loopback(service(1), false).is_ok());

    let mut d = connector();
    assert!(matches!(
        d.dial(SessionHandle(None), home).0,
        Err(DialError::Loopback(e)) if e.kind == ErrorKind::ConnectionRefused
    ));
    let session = SessionToken::new(0, 0, 0);
    publish(&mut d, home, session);
    let dialed = d.dial(SessionHandle(Some(session)), home).0.unwrap();
    assert!(matches!(dialed, Dial::Channel(0, local) if local == v4(127, 0, 0, 1, 0)));
    assert!(matches!(d.dial(SessionHandle(None), service(1)), (Ok(Dial::Tcp), counts) if counts == ChannelCounts::none()));
}

#[test]
fn a_taken_channel_says_why_it_is_refused() {
    let mut d = connector();
    let session = SessionToken::new(1, 2, 3);
    let error = carried(&mut d, session, service(9)).unwrap_err();
    assert_eq!(error, ChannelError::Take { session, error: TakeError::NotPublished });
    assert_eq!(
        error.to_error("10.96.0.9:9092").message,
        "dmesh backend channel for 10.96.0.9:9092 session w1/s2/g3: no dmesh backend channel for this service"
    );
    assert!(error.counts().take_error && !error.counts().target_mismatch);
    assert_eq!(d.route(SessionHandle(Some(session)), service(9)), Route::Session(session));
}
