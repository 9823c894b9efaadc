use dmesh::headers::authority_of;
use dmesh::net::{SocketAddr, SocketAddrV4};
use dmesh::router::accept::{registered, Accepted, Ctx};
use dmesh::router::channels::{Acquire, AcquireAction, AcquireEvent, Channels};
use dmesh::router::config::{BackendProto, Config, ConfigError, Environment};
use dmesh::router::proxy::{
    hop_by_hop, rewrite, strip_hop_by_hop, Forwarded, Handle, HandleAction,
};
use dmesh::session::{FlowId, SessionToken};
use http::{HeaderMap, HeaderValue, Uri};

fn v4(last: u32) -> SocketAddr {
    SocketAddr::V4(SocketAddrV4 { ip: 0x0a00_0000 | last, port: 8086 })
}

fn config(proto: BackendProto, routes: Vec<(String, SocketAddr)>) -> Config {
    Config {
        dev_pci: String::new(),
        rep_pci: String::new(),
        server_name: String::new(),
        cores: 1,
        backend_proto: proto,
        routes,
        default_backend: None,
        backend_wait: 200,
        max_streams: 100,
    }
}

/// Reports the authority and path it was asked for.
fn echo(forwarded: &Forwarded) -> String {
    let uri: Uri = forwarded.uri.parse().unwrap();
    let authority = match uri.authority() {
        Some(authority) => authority.to_string(),
        None => forwarded.headers.get("host").unwrap().to_str().unwrap().to_string(),
    };
    let had_hop_by_hop = forwarded.headers.contains_key("keep-alive");
    let path = uri.path_and_query().unwrap();
    format!("{authority} {path} hop={had_hop_by_hop}")
}

/// A router whose channels register at given times, with a clock in
/// milliseconds.
struct Router {
    channels: Channels<&'static str>,
    late: Vec<(u64, SocketAddr)>,
    now: u64,
    served: Vec<&'static str>,
}

fn router(backends: &[(SocketAddr, &'static str)]) -> Router {
    let mut channels = Channels::new();
    for (key, sender) in backends {
        let id = channels.allot();
        channels.register(*key, id, *sender);
    }
    Router { channels, late: Vec::new(), now: 0, served: Vec::new() }
}

impl Router {
    fn acquire(&mut self, key: SocketAddr, wait: u64) -> Option<&'static str> {
        let (mut acquire, mut action) = Acquire::begin(wait);
        let mut picked = None;
        loop {
            let event = match action {
                AcquireAction::Pick => {
                    picked = self.channels.pick(&key);
                    AcquireEvent::Picked { found: picked.is_some(), now: self.now }
                }
                AcquireAction::Subscribe => AcquireEvent::Subscribed,
                AcquireAction::Wait(left) => match self.late.pop() {
                    Some((at, key)) if at <= self.now + left => {
                        self.now = at;
                        let id = self.channels.allot();
                        self.channels.register(key, id, "late");
                        AcquireEvent::Woke { registered: true }
                    }
                    _ => AcquireEvent::Woke { registered: false },
                },
                AcquireAction::Take => return self.channels.sender(&key, picked?).copied(),
                AcquireAction::GiveUp => return None,
            };
            action = acquire.step(event);
        }
    }

    fn get(&mut self, cfg: &Config, dst: SocketAddr, uri: &str) -> (u16, String) {
        let uri: Uri = uri.parse().unwrap();
        let mut headers = HeaderMap::new();
        headers.insert("keep-alive", HeaderValue::from_static("timeout=5"));
        let authority = authority_of(uri.authority().map(|a| a.as_str()), &headers);
        let (mut handle, mut action) = Handle::begin(cfg, authority.as_deref(), dst);
        let mut headers = Some(headers);
        let mut forwarded = None;
        loop {
            action = match action {
                HandleAction::Acquire(key) => {
                    let acquired = self.acquire(key, cfg.backend_wait);
                    self.served.extend(acquired);
                    handle.acquired(acquired.is_some())
                }
                HandleAction::Rewrite(_) => {
                    forwarded = rewrite(
                        uri.path_and_query().map(|p| p.as_str()),
                        headers.take().unwrap(),
                        authority.as_deref().unwrap_or("backend"),
                        cfg.backend_proto,
                    );
                    handle.rewritten(forwarded.is_some())
                }
                HandleAction::Send => handle.sent(true),
                HandleAction::Return => return (200, echo(forwarded.as_ref().unwrap())),
                HandleAction::Answer(status) => return (status, String::new()),
            }
        }
    }
}

#[test]
fn routes_to_http1_backend() {
    let key = v4(11);
    let mut tx = router(&[(key, "one")]);
    let (status, body) =
        tx.get(&config(BackendProto::Http1, vec![]), key, "http://svc.test/hello?a=1");
    assert_eq!(status, 200);
    assert_eq!(body, "svc.test /hello?a=1 hop=false");
}

#[test]
fn routes_to_h2_backend() {
    let key = v4(12);
    let mut tx = router(&[(key, "one")]);
    let (status, body) = tx.get(&config(BackendProto::H2, vec![]), key, "http://svc.test/hello");
    assert_eq!(status, 200);
    assert_eq!(body, "svc.test /hello hop=false");
}

#[test]
fn authority_route_overrides_flow_dst() {
    let (flow_dst, routed) = (v4(13), v4(14));
    let mut tx = router(&[(routed, "one")]);
    let routes = vec![("svc.routed".to_string(), routed)];
    let (status, body) =
        tx.get(&config(BackendProto::Http1, routes), flow_dst, "http://svc.routed/x");
    assert_eq!(status, 200);
    assert_eq!(body, "svc.routed /x hop=false");
}

#[test]
fn unrouted_destination_is_unavailable() {
    let mut tx = router(&[]);
    let (status, _) = tx.get(&config(BackendProto::Http1, vec![]), v4(15), "http://svc.missing/x");
    assert_eq!(status, 503);
}

#[test]
fn request_waits_for_late_backend() {
    let key = v4(16);
    let mut tx = router(&[]);
    tx.late.push((50, key));
    let (status, body) = tx.get(&config(BackendProto::Http1, vec![]), key, "http://svc.late/x");
    assert_eq!(status, 200);
    assert_eq!(body, "svc.late /x hop=false");
    assert_eq!(tx.now, 50);
}

#[test]
fn multiple_channels_round_robin() {
    let key = v4(17);
    let mut tx = router(&[(key, "one"), (key, "two")]);
    for _ in 0..4 {
        let (status, _) = tx.get(&config(BackendProto::Http1, vec![]), key, "http://svc.rr/x");
        assert_eq!(status, 200);
    }
    assert_eq!(tx.served, vec!["one", "two", "one", "two"]);
}

#[test]
fn the_default_backend_is_tried_last() {
    let mut tx = router(&[(v4(2), "default")]);
    let mut cfg = config(BackendProto::Http1, vec![]);
    cfg.default_backend = Some(v4(2));
    let (status, _) = tx.get(&cfg, v4(1), "http://svc/x");
    assert_eq!(status, 200);
    assert_eq!(tx.served, vec!["default"]);
}

#[test]
fn a_withdrawn_channel_is_not_picked() {
    let mut channels: Channels<&str> = Channels::new();
    let first = channels.allot();
    let second = channels.allot();
    assert_ne!(first, second);
    assert_eq!(channels.register(v4(1), first, "a"), 1);
    assert_eq!(channels.register(v4(1), second, "b"), 2);
    channels.unregister(v4(1), first);
    for _ in 0..3 {
        let i = channels.pick(&v4(1)).unwrap();
        assert_eq!(channels.sender(&v4(1), i), Some(&"b"));
    }
    channels.unregister(v4(1), second);
    assert_eq!(channels.pick(&v4(1)), None);
    assert!(channels.keys().is_empty());
}

#[test]
fn nominated_headers_are_stripped() {
    let mut headers = HeaderMap::new();
    headers.insert("connection", HeaderValue::from_static("close, X-Secret ,x-other"));
    headers.insert("x-secret", HeaderValue::from_static("1"));
    headers.insert("x-other", HeaderValue::from_static("2"));
    headers.insert("x-kept", HeaderValue::from_static("3"));
    headers.insert("te", HeaderValue::from_static("trailers"));
    strip_hop_by_hop(&mut headers);
    let names: Vec<&str> = headers.keys().map(|n| n.as_str()).collect();
    assert_eq!(names, vec!["x-kept"]);
    assert!(hop_by_hop().contains(&"proxy-connection"));
}

#[test]
fn an_unusable_path_is_no_request() {
    assert!(rewrite(Some("not a uri"), HeaderMap::new(), "svc", BackendProto::Http1).is_none());
    assert!(rewrite(Some("/x"), HeaderMap::new(), "bad\nauthority", BackendProto::Http1).is_none());
    let root = rewrite(None, HeaderMap::new(), "svc", BackendProto::H2).unwrap();
    assert_eq!(root.uri, "http://svc/");
    let mut headers = HeaderMap::new();
    headers.insert("host", HeaderValue::from_static("old"));
    let h2 = rewrite(Some("/x"), headers, "svc:80", BackendProto::H2).unwrap();
    assert_eq!(h2.uri, "http://svc:80/x");
    assert!(!h2.headers.contains_key("host"));
}

#[test]
fn the_host_header_names_the_authority() {
    let mut headers = HeaderMap::new();
    assert_eq!(authority_of(None, &headers), None);
    headers.insert("host", HeaderValue::from_static("svc.local:80"));
    assert_eq!(authority_of(None, &headers).as_deref(), Some("svc.local:80"));
    assert_eq!(authority_of(Some("uri.local"), &headers).as_deref(), Some("uri.local"));
}

fn parse_addr(text: &str) -> Result<SocketAddr, String> {
    let (ip, port) = text.split_once(':').ok_or("no port".to_string())?;
    let mut bits = 0u32;
    for octet in ip.split('.') {
        bits = (bits << 8) | octet.parse::<u32>().map_err(|_| "bad octet".to_string())?;
    }
    let port = port.parse::<u16>().map_err(|_| "bad port".to_string())?;
    Ok(SocketAddr::V4(SocketAddrV4 { ip: bits, port }))
}

fn environment() -> Environment {
    Environment {
        dev_pci: None,
        rep_pci: None,
        server_name: None,
        cores: None,
        backend_proto: None,
        routes: None,
        default_backend: None,
        backend_wait_ms: None,
        max_streams: None,
    }
}

#[test]
fn the_environment_configures_the_router() {
    let config = Config::from_env(
        &Environment {
            cores: Some("4".to_string()),
            backend_proto: Some("h2".to_string()),
            routes: Some(" svc.a = 10.0.0.1:80 ,svc.b:81=10.0.0.2:81,".to_string()),
            default_backend: Some("10.0.0.9:99".to_string()),
            backend_wait_ms: Some("250".to_string()),
            max_streams: Some("17".to_string()),
            ..environment()
        },
        &parse_addr,
    )
    .unwrap();
    assert_eq!(config.cores, 4);
    assert!(!config.single_threaded());
    assert_eq!(config.backend_proto, BackendProto::H2);
    assert_eq!(config.backend_wait, 250);
    assert_eq!(config.max_streams, 17);
    assert_eq!(config.default_backend, Some(parse_addr("10.0.0.9:99").unwrap()));
    assert_eq!(config.route(Some("svc.a")), Some(parse_addr("10.0.0.1:80").unwrap()));
    assert_eq!(config.route(Some("svc.a:8080")), Some(parse_addr("10.0.0.1:80").unwrap()));
    assert_eq!(config.route(Some("svc.b:81")), Some(parse_addr("10.0.0.2:81").unwrap()));
    assert_eq!(config.route(Some("svc.b")), None);
    assert_eq!(config.route(None), None);
}

#[test]
fn a_bad_environment_is_refused() {
    let refuse = |env: Environment| Config::from_env(&env, &parse_addr).unwrap_err();
    let number = refuse(Environment { cores: Some("many".to_string()), ..environment() });
    assert!(matches!(number, ConfigError::Number(..)));
    assert!(number.message().contains("many"));
    assert!(matches!(
        refuse(Environment { max_streams: Some("4294967296".to_string()), ..environment() }),
        ConfigError::Number(..)
    ));
    assert!(matches!(
        refuse(Environment { backend_wait_ms: Some("-1".to_string()), ..environment() }),
        ConfigError::Number(..)
    ));
    assert!(matches!(
        refuse(Environment { backend_proto: Some("spdy".to_string()), ..environment() }),
        ConfigError::Proto(name) if name == "spdy"
    ));
    assert!(matches!(
        refuse(Environment { routes: Some("svc".to_string()), ..environment() }),
        ConfigError::Route(entry) if entry == "svc"
    ));
    assert!(matches!(
        refuse(Environment { routes: Some("svc=nowhere".to_string()), ..environment() }),
        ConfigError::RouteAddress(_, error) if error == "no port"
    ));
    assert!(matches!(
        refuse(Environment { default_backend: Some("nowhere".to_string()), ..environment() }),
        ConfigError::DefaultBackend(addr, _) if addr == "nowhere"
    ));
}

#[test]
fn a_ready_connection_is_a_client_or_a_backend() {
    let flow = FlowId {
        src: SocketAddrV4 { ip: 1, port: 1 },
        dst: SocketAddrV4 { ip: 0x0a00_0001, port: 8086 },
        workload: String::new(),
        is_backend: true,
    };
    let session = SessionToken::new(0, 3, 1);
    assert_eq!(registered(session, &flow, false, BackendProto::H2), Accepted::Stop);
    assert_eq!(
        registered(session, &flow, true, BackendProto::H2),
        Accepted::Backend(v4(1), BackendProto::H2)
    );
    let client = FlowId { is_backend: false, ..flow };
    assert_eq!(
        registered(session, &client, true, BackendProto::H2),
        Accepted::Client(Ctx { dst: v4(1), session })
    );
}

#[test]
fn a_request_waits_its_time() {
    let (mut acquire, action) = Acquire::begin(50);
    assert_eq!(action, AcquireAction::Pick);
    let missed = |now| AcquireEvent::Picked { found: false, now };
    assert_eq!(acquire.step(missed(1000)), AcquireAction::Subscribe);
    assert_eq!(acquire.step(AcquireEvent::Subscribed), AcquireAction::Pick);
    assert_eq!(acquire.step(missed(1010)), AcquireAction::Wait(40));
    assert_eq!(acquire.step(AcquireEvent::Woke { registered: true }), AcquireAction::Subscribe);
    assert_eq!(acquire.step(AcquireEvent::Subscribed), AcquireAction::Pick);
    assert_eq!(acquire.step(missed(1050)), AcquireAction::Wait(0));
    assert_eq!(acquire.step(AcquireEvent::Woke { registered: true }), AcquireAction::Subscribe);
    assert_eq!(acquire.step(AcquireEvent::Subscribed), AcquireAction::Pick);
    assert_eq!(acquire.step(missed(1051)), AcquireAction::GiveUp);
    let (mut acquire, _) = Acquire::begin(50);
    acquire.step(missed(0));
    acquire.step(AcquireEvent::Subscribed);
    let found = AcquireEvent::Picked { found: true, now: 99 };
    assert_eq!(acquire.step(found), AcquireAction::Take);
}

#[test]
fn requests_take_turns() {
    let mut channels: Channels<u32> = Channels::new();
    for sender in 0..3 {
        let id = channels.allot();
        channels.register(v4(1), id, sender);
    }
    let picked: Vec<usize> = (0..7).map(|_| channels.pick(&v4(1)).unwrap()).collect();
    assert_eq!(picked, vec![0, 1, 2, 0, 1, 2, 0]);
}

#[test]
fn the_bare_host_of_an_authority_is_routed() {
    let routes = vec![
        ("[::1]".to_string(), v4(1)),
        ("[::1]:9000".to_string(), v4(2)),
        ("svc.example.com".to_string(), v4(3)),
        ("svc.example.com:81".to_string(), v4(4)),
    ];
    let cfg = config(BackendProto::H2, routes);
    assert_eq!(cfg.route(Some("[::1]:8080")), Some(v4(1)));
    assert_eq!(cfg.route(Some("[::1]:9000")), Some(v4(2)));
    assert_eq!(cfg.route(Some("[::1]")), Some(v4(1)));
    assert_eq!(cfg.route(Some("[::2]:8080")), None);
    assert_eq!(cfg.route(Some("svc.example.com:80")), Some(v4(3)));
    assert_eq!(cfg.route(Some("svc.example.com:81")), Some(v4(4)));
    assert_eq!(cfg.route(Some("[svc.example.com:80")), None);
    assert_eq!(cfg.route(None), None);
}
