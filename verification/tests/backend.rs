use dmesh::backend::{BackendKey, Backends, EndpointVerdict, PublishError, TakeError};
use dmesh::net::{SocketAddr, SocketAddrV4};
use dmesh::session::SessionToken;

type Published = Backends<SocketAddr, fn(SocketAddr) -> EndpointVerdict>;

fn v4(a: u32, b: u32, c: u32, d: u32, port: u16) -> SocketAddr {
    SocketAddr::V4(SocketAddrV4 { ip: (a << 24) | (b << 16) | (c << 8) | d, port })
}

fn addr(last: u32) -> SocketAddr {
    v4(10, 96, 0, last, 9092)
}

#[test]
fn take_names_the_publishing_session() {
    let mut backends = Published::new();
    let service = addr(11);
    let first = SessionToken::new(0, 0, 0);
    let second = SessionToken::new(0, 1, 0);

    backends.publish(BackendKey::new(service, first), service).unwrap();
    backends.publish(BackendKey::new(service, second), service).unwrap();
    assert_eq!(backends.sessions_for(&service).len(), 2);

    backends.take_session(second, service).unwrap();
    assert_eq!(backends.take_session(second, service).err(), Some(TakeError::AlreadyTaken));
    backends.take_session(first, service).unwrap();
}

#[test]
fn a_duplicate_live_key_is_refused() {
    let mut backends = Published::new();
    let service = addr(12);
    let key = BackendKey::new(service, SessionToken::new(0, 0, 0));
    backends.publish(key, service).unwrap();
    assert_eq!(backends.publish(key, service), Err(PublishError::AlreadyLive));
}

#[test]
fn a_closed_generation_evicts_only_itself() {
    let mut backends = Published::new();
    let service = addr(13);
    let old = BackendKey::new(service, SessionToken::new(0, 0, 0));
    let new = BackendKey::new(service, SessionToken::new(0, 0, 1));

    backends.publish(old, service).unwrap();
    assert!(backends.remove(&old).is_some());
    assert!(!backends.contains_service(&service));

    backends.publish(new, service).unwrap();
    assert_eq!(backends.take_session(old.session, service).err(), Some(TakeError::NotPublished));
    // The closed generation's second close must not withdraw the live one.
    assert!(backends.remove(&old).is_none());
    backends.take_session(new.session, service).unwrap();
}

#[test]
fn an_unpublished_session_has_no_channel() {
    let mut backends = Published::new();
    let service = addr(14);
    let key = BackendKey::new(service, SessionToken::new(0, 0, 0));
    assert_eq!(backends.take_session(key.session, service).err(), Some(TakeError::NotPublished));
    backends.publish(key, service).unwrap();
    backends.take_session(key.session, service).unwrap();
    assert_eq!(backends.take_session(key.session, service).err(), Some(TakeError::AlreadyTaken));
    backends.remove(&key);
    assert!(backends.is_empty());
}

#[test]
fn discovery_address_does_not_replace_session_ownership() {
    let mut backends = Published::new();
    let service = addr(13);
    let endpoint = v4(10, 244, 0, 13, 9092);
    let other_service = addr(99);
    let other_endpoint = v4(10, 244, 0, 99, 9092);
    let token = SessionToken::new(2, 7, 4);
    backends.publish(BackendKey::new(service, token), service).unwrap();
    backends.place_targets(vec![
        (endpoint, service),
        (other_service, other_service),
        (other_endpoint, other_service),
    ]);

    assert_eq!(backends.take_session(token, other_service).err(), Some(TakeError::TargetMismatch));
    assert_eq!(backends.take_session(token, other_endpoint).err(), Some(TakeError::TargetMismatch));
    backends.take_session(token, endpoint).unwrap();
    assert_eq!(backends.take_session(token, endpoint).err(), Some(TakeError::AlreadyTaken));
}

#[test]
fn an_unplaced_endpoint_is_this_session() {
    let mut backends = Published::new();
    let service = addr(13);
    let known = v4(10, 244, 0, 13, 9092);
    let unplaced = v4(10, 244, 0, 36, 9092);
    let token = SessionToken::new(1, 1, 1);
    backends.publish(BackendKey::new(service, token), service).unwrap();
    backends.place_targets(vec![(known, service)]);

    backends.take_session(token, unplaced).unwrap();
}

#[test]
fn a_later_generation_governs_a_live_session() {
    let mut backends = Published::new();
    let service = addr(13);
    let moved = v4(10, 244, 0, 36, 9092);
    let token = SessionToken::new(1, 2, 3);
    backends.publish(BackendKey::new(service, token), service).unwrap();
    backends.place_targets(vec![(moved, addr(99))]);

    assert_eq!(backends.take_session(token, moved).err(), Some(TakeError::TargetMismatch));
}

#[test]
fn session_lookup_uses_the_direct_service_index() {
    let mut backends = Published::new();
    let wanted = SessionToken::new(2, 7, 4);
    for slot in 0..8 {
        let service = addr(20 + slot);
        let token = SessionToken::new(2, slot, 4);
        backends.publish(BackendKey::new(service, token), service).unwrap();
    }

    let wanted_key = BackendKey::new(addr(27), wanted);
    backends.take_session(wanted, wanted_key.service).unwrap();
    backends.remove(&wanted_key);
    assert_eq!(
        backends.take_session(wanted, wanted_key.service).err(),
        Some(TakeError::NotPublished)
    );
    assert_eq!(backends.len(), 7);
}

#[test]
fn one_session_cannot_publish_under_two_services() {
    let mut backends = Published::new();
    let token = SessionToken::new(1, 2, 3);
    let first = BackendKey::new(addr(30), token);
    let second = BackendKey::new(addr(31), token);

    backends.publish(first, first.service).unwrap();
    assert_eq!(backends.publish(second, second.service), Err(PublishError::AlreadyLive));
    assert_eq!(backends.len(), 1);
}

fn by_last_octet(target: SocketAddr) -> EndpointVerdict {
    match target {
        SocketAddr::V4(a) => match a.ip % 256 {
            1 => EndpointVerdict::SessionOwn,
            2 => EndpointVerdict::Live,
            3 => EndpointVerdict::Unresolved,
            4 => EndpointVerdict::Remote,
            _ => EndpointVerdict::Stale,
        },
        SocketAddr::V6(_) => EndpointVerdict::Stale,
    }
}

#[test]
fn a_resolver_declines_by_reason() {
    let mut backends = Published::new();
    backends.set_endpoint_resolver(by_last_octet);
    let token = SessionToken::new(0, 0, 0);
    let key = BackendKey::new(addr(1), token);
    backends.publish(key, addr(1)).unwrap();
    let mut refused = Vec::new();
    for last in 3..6 {
        refused.push(backends.take_session(token, addr(last)).unwrap_err());
    }
    assert_eq!(
        refused,
        vec![
            TakeError::EndpointUnresolved,
            TakeError::EndpointRemote,
            TakeError::EndpointStale
        ]
    );
    assert_eq!(backends.take_session(token, addr(2)), Ok(addr(1)));
}

#[test]
fn a_take_error_says_why() {
    assert_eq!(
        PublishError::AlreadyLive.message(),
        "a live dmesh backend channel holds this key"
    );
    assert_eq!(TakeError::AlreadyTaken.message(), "the dmesh backend channel was already taken");
}

#[test]
fn a_placed_address_is_managed() {
    let mut backends = Published::new();
    backends.place_targets(vec![(addr(40), addr(41))]);
    assert!(backends.manages(&addr(40)));
    assert!(!backends.manages(&addr(41)));
    backends.publish(BackendKey::new(addr(41), SessionToken::new(0, 0, 0)), addr(41)).unwrap();
    assert!(backends.manages(&addr(41)));
}

#[test]
fn a_key_reads_as_its_service_and_session() {
    let key = BackendKey::new(addr(13), SessionToken::new(2, 7, 4));
    assert_eq!(key.worker, 2);
    assert_eq!(key.display("10.96.0.13:9092"), "10.96.0.13:9092[w2/s7/g4]");
}

#[test]
fn sessions_are_listed_in_the_order_they_published() {
    let mut backends = Published::new();
    let (service, other) = (addr(21), addr(22));
    let token = |slot| SessionToken::new(0, slot, 0);
    for (slot, at) in [(0, service), (1, other), (2, service), (3, service)] {
        backends.publish(BackendKey::new(at, token(slot)), at).unwrap();
    }
    backends.take_session(token(0), service).unwrap();
    backends.remove(&BackendKey::new(service, token(2)));
    backends.remove(&BackendKey::new(other, token(3)));
    backends.publish(BackendKey::new(service, token(2)), service).unwrap();
    assert_eq!(backends.sessions_for(&service), vec![token(0), token(3), token(2)]);
    assert_eq!(backends.sessions_for(&other), vec![token(1)]);
}
