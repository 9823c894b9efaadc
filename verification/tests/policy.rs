use dmesh::net::{IpAddr, SocketAddr, SocketAddrV4};
use dmesh::policy::{
    client_identity, connection_verdict, dmesh_connection_verdict, identified_verdict, is_authorized,
    is_tls_authorized,
    AllowPolicy, Authentication, Authorization, DefaultPolicy, GetPolicy, Id, Meta, PolicyConfig, Protocol,
    RateLimitError, Route, Routes, Rule, ServerPermit, ServerPolicy, ServerTls,
};

type Net = (u32, u32);
type Authz = Authorization<Net, String>;
type Policy = ServerPolicy<Net, String, u32>;

fn in_net(net: &Net, ip: IpAddr) -> bool {
    match ip {
        IpAddr::V4(bits) => net.1 == 0 || (bits >> (32 - net.1)) == (net.0 >> (32 - net.1)),
        IpAddr::V6(_) => net.1 == 0,
    }
}

fn in_suffix(suffix: &String, name: &str) -> bool {
    name == suffix || name.ends_with(&format!(".{suffix}"))
}

fn parse_id(text: &str) -> Option<Id> {
    if text.starts_with("spiffe://") {
        Some(Id::Uri(text.to_string()))
    } else if text.contains(' ') {
        None
    } else {
        Some(Id::Dns(text.to_string()))
    }
}

fn meta() -> Meta {
    Meta::Default { name: "test".to_string() }
}

fn admits_everyone() -> Authz {
    Authorization {
        networks: vec![(0, 0)],
        meta: meta(),
        authentication: Authentication::Unauthenticated,
    }
}

fn admits_nobody() -> Authz {
    Authorization { networks: vec![], meta: meta(), authentication: Authentication::Unauthenticated }
}

fn one_route(authorizations: Vec<Authz>) -> Vec<Route<Net, String>> {
    vec![Route { rules: vec![Rule { authorizations }] }]
}

fn policy(protocol: Protocol<Net, String>) -> Policy {
    ServerPolicy { protocol, meta: meta(), local_rate_limit: 0 }
}

fn client() -> SocketAddr {
    SocketAddr::V4(SocketAddrV4 { ip: 0x0af4_0007, port: 4001 })
}

fn verdict(policy: &Policy) -> bool {
    let tls = Some(ServerTls::Established { client_id: None });
    connection_verdict(policy, client(), &tls, &in_net, &in_suffix)
}

#[test]
fn connection_verdict_is_per_protocol_variant() {
    let opaque = |a| policy(Protocol::Opaque(vec![a]));
    assert!(verdict(&opaque(admits_everyone())));
    assert!(!verdict(&opaque(admits_nobody())));

    let detect =
        |a| policy(Protocol::Detect { http: one_route(vec![]), tcp_authorizations: vec![a] });
    assert!(verdict(&detect(admits_everyone())));
    assert!(!verdict(&detect(admits_nobody())));

    assert!(!verdict(&policy(Protocol::Http1(Vec::new()))));
    assert!(verdict(&policy(Protocol::Http2(one_route(vec![admits_nobody(), admits_everyone()])))));
    assert!(!verdict(&policy(Protocol::Http1(one_route(vec![admits_nobody()])))));
}

fn authorization(identities: Vec<&str>, suffixes: Vec<&str>) -> Authz {
    Authorization {
        networks: vec![],
        meta: Meta::Default { name: "name".to_string() },
        authentication: Authentication::TlsAuthenticated {
            identities: identities.iter().map(|s| s.to_string()).collect(),
            suffixes: suffixes.iter().map(|s| s.to_string()).collect(),
        },
    }
}

fn server_tls(identity: &str) -> Option<ServerTls> {
    Some(ServerTls::Established { client_id: parse_id(identity) })
}

#[test]
fn is_authorized_for_matching_spiffe_ids() {
    let tls = server_tls("spiffe://some-root/some-workload");
    let authz = authorization(vec!["spiffe://some-root/some-workload"], vec![]);
    assert!(is_tls_authorized(&tls, &authz, &in_suffix))
}

#[test]
fn is_not_authorized_for_non_matching_spiffe_ids() {
    let tls = server_tls("spiffe://some-root/some-workload-1");
    let authz = authorization(vec!["spiffe://some-root/some-workload-2"], vec![]);
    assert!(!is_tls_authorized(&tls, &authz, &in_suffix))
}

#[test]
fn is_authorized_for_matching_dns_ids() {
    let tls = server_tls("some.id.local");
    let authz = authorization(vec!["some.id.local"], vec![]);
    assert!(is_tls_authorized(&tls, &authz, &in_suffix))
}

#[test]
fn is_not_authorized_for_non_matching_dns_ids() {
    let tls = server_tls("some.id.local.one");
    let authz = authorization(vec!["some.id.local.two"], vec![]);
    assert!(!is_tls_authorized(&tls, &authz, &in_suffix))
}

#[test]
fn is_authorized_for_matching_dns_suffixes_ids() {
    let tls = server_tls("some.id.local");
    let authz = authorization(vec![], vec!["id.local"]);
    assert!(is_tls_authorized(&tls, &authz, &in_suffix))
}

#[test]
fn is_not_authorized_for_non_matching_suffixes_ids() {
    let tls = server_tls("some.id.local");
    let authz = authorization(vec![], vec!["another-id.local"]);
    assert!(!is_tls_authorized(&tls, &authz, &in_suffix))
}

#[test]
fn is_not_authorized_for_suffixes_and_spiffe_id() {
    let tls = server_tls("spiffe://some-root/some-workload-1");
    let authz = authorization(vec![], vec!["some-workload-1"]);
    assert!(!is_tls_authorized(&tls, &authz, &in_suffix))
}

#[test]
fn is_authorized_for_one_matching_spiffe_id() {
    let tls = server_tls("spiffe://some-root/some-workload-1");
    let authz = authorization(
        vec!["spiffe://some-root/some-workload-1", "some.workload.one", "some.workload.two"],
        vec![],
    );
    assert!(is_tls_authorized(&tls, &authz, &in_suffix))
}

#[test]
fn is_authorized_for_one_matching_dns_id() {
    let tls = server_tls("some.workload.one");
    let authz = authorization(
        vec!["spiffe://some-root/some-workload-1", "some.workload.one", "some.workload.two"],
        vec![],
    );
    assert!(is_tls_authorized(&tls, &authz, &in_suffix))
}

#[test]
fn a_client_has_to_come_from_a_network() {
    let mut authz = authorization(vec!["some.id.local"], vec![]);
    let tls = server_tls("some.id.local");
    assert!(!is_authorized(&authz, client(), &tls, &in_net, &in_suffix));
    authz.networks = vec![(0x0a60_0000, 16), (0x0af4_0000, 16)];
    assert!(is_authorized(&authz, client(), &tls, &in_net, &in_suffix));
    assert!(!is_authorized(&authz, client(), &server_tls("other.local"), &in_net, &in_suffix));
    assert!(!is_authorized(&authz, client(), &None, &in_net, &in_suffix));
    assert!(!is_authorized(&authz, client(), &Some(ServerTls::Passthru), &in_net, &in_suffix));
    authz.authentication = Authentication::TlsUnauthenticated;
    assert!(is_authorized(
        &authz,
        client(),
        &Some(ServerTls::Established { client_id: None }),
        &in_net,
        &in_suffix
    ));
    assert!(!is_authorized(&authz, client(), &Some(ServerTls::Passthru), &in_net, &in_suffix));
}

#[test]
fn a_suffix_is_no_identity_of_a_uri() {
    let authz = authorization(vec![], vec!["local"]);
    assert!(!is_tls_authorized(&server_tls("spiffe://root/x.local"), &authz, &in_suffix));
}

#[test]
fn denying_is_an_opaque_policy_for_nobody() {
    let denied: Policy = DefaultPolicy::Deny.into_policy(7);
    assert_eq!(denied.local_rate_limit, 7);
    assert!(matches!(&denied.meta, Meta::Default { name } if name == "deny"));
    assert!(!verdict(&denied));
    let allowed = DefaultPolicy::Allow(policy(Protocol::Opaque(vec![admits_everyone()])))
        .into_policy(7);
    assert_eq!(allowed.local_rate_limit, 0);
    assert!(verdict(&allowed));
    let known = DefaultPolicy::from(policy(Protocol::Opaque(vec![admits_nobody()])));
    assert!(!verdict(&known.into_policy(7)));
}

struct ByPort;

impl GetPolicy<Net, String, u32> for ByPort {
    fn get_policy(&self, dst: SocketAddr) -> AllowPolicy<Net, String, u32> {
        let authorizations = if dst.port() == 80 { vec![admits_everyone()] } else { vec![] };
        AllowPolicy { dst, server: policy(Protocol::Opaque(authorizations)) }
    }
}

#[test]
fn a_shared_store_gives_its_policies() {
    let store = std::sync::Arc::new(ByPort);
    for (port, admitted) in [(80, true), (81, false)] {
        let dst = SocketAddr::V4(SocketAddrV4 { ip: 1, port });
        let found = store.get_policy(dst);
        assert_eq!(found.dst_addr(), dst);
        assert_eq!(found.admits(client(), &None, &in_net, &in_suffix), admitted);
        let verdict = dmesh_connection_verdict(
            &store,
            dst,
            client(),
            Some("a.local"),
            &parse_id,
            &in_net,
            &in_suffix,
        );
        assert_eq!(verdict, admitted);
    }
}

#[test]
fn an_identity_is_read_from_its_text() {
    assert!(client_identity(None, &parse_id).is_none());
    assert!(client_identity(Some(""), &parse_id).is_none());
    assert!(client_identity(Some("no id"), &parse_id).is_none());
    assert_eq!(client_identity(Some("a.local"), &parse_id).unwrap().to_str(), "a.local");
}

#[test]
fn an_unattested_client_is_anonymous() {
    let mut authz = authorization(vec!["a.local"], vec![]);
    authz.networks = vec![(0, 0)];
    let only = policy(Protocol::Opaque(vec![authz]));
    let admits = |id: Option<&str>| {
        identified_verdict(&only, client(), id, &parse_id, &in_net, &in_suffix)
    };
    assert!(admits(Some("a.local")));
    assert!(!admits(Some("b.local")));
    assert!(!admits(Some("")));
    assert!(!admits(None));
}

#[test]
fn limits_have_a_scope() {
    assert_eq!(RateLimitError::Total.scope(), "total");
    assert_eq!(RateLimitError::PerIdentity.scope(), "identity");
    assert_eq!(RateLimitError::Override.scope(), "identity");
}

#[test]
fn a_policy_is_labelled_by_its_port() {
    let allow = AllowPolicy { dst: client(), server: policy(Protocol::Grpc(one_route(vec![]))) };
    let label = allow.ratelimit_label(&RateLimitError::Override, None);
    assert_eq!(label.server.port, 4001);
    assert_eq!(label.scope, "identity");
    assert!(matches!(allow.routes(), Some(Routes::Grpc(routes)) if routes.len() == 1));
    assert_eq!(allow.dst_addr(), client());
    let permit = ServerPermit::new(client(), &allow.server, &admits_nobody());
    assert_eq!(permit.labels.server.port, 4001);
    assert!(matches!(permit.labels.authz, Meta::Default { name } if name == "test"));
    assert!(matches!(permit.protocol, Protocol::Grpc(_)));
    assert!(!allow.admits(client(), &None, &in_net, &in_suffix));
}

#[test]
fn discovery_is_switched_off() {
    let config: PolicyConfig<u8, u8> = PolicyConfig::Discover {
        default: 1,
        initial_ports: vec![80, 443],
        cache_max_idle_age: 90,
        opaque_ports: vec![25],
    };
    let (own, stores) = config.disable_inbound_policy_discovery();
    assert!(matches!(
        stores,
        PolicyConfig::Discover { default: 1, cache_max_idle_age: 90, .. }
    ));
    match own {
        PolicyConfig::Fixed { default, ports, cache_max_idle_age, opaque_ports } => {
            assert_eq!(default, 1);
            assert!(ports.is_empty());
            assert_eq!(cache_max_idle_age, 90);
            assert_eq!(opaque_ports, vec![25]);
        }
        PolicyConfig::Discover { .. } => panic!("still discovering"),
    }
    let fixed: PolicyConfig<u8, u8> = PolicyConfig::Fixed {
        default: 1,
        ports: vec![(80, 2)],
        cache_max_idle_age: 90,
        opaque_ports: vec![],
    };
    assert!(matches!(
        fixed.disable_inbound_policy_discovery(),
        (PolicyConfig::Fixed { ports, .. }, PolicyConfig::Fixed { ports: kept, .. })
            if ports == vec![(80, 2)] && kept == vec![(80, 2)]
    ));
}
