//! Whether a policy lets a client's connection in.
//!
//! A policy's networks and name suffixes are matched by the caller, who knows
//! what they are: `N` is a network and `S` a suffix. Everything else of the
//! verdict is decided here.
use vstd::prelude::*;
use vstd::std_specs::convert::FromSpecImpl;

use crate::net::{IpAddr, SocketAddr};

verus! {

/// The identity that a client presented.
#[derive(Debug)]
pub enum Id {
    Uri(String),
    Dns(String),
}

impl Id {
    pub open spec fn text(self) -> Seq<char> {
        match self {
            Id::Uri(text) => text@,
            Id::Dns(text) => text@,
        }
    }

    pub fn to_str(&self) -> (r: &str)
        ensures
            r@ == self.text(),
    {
        match self {
            Id::Uri(text) => text.as_str(),
            Id::Dns(text) => text.as_str(),
        }
    }
}

/// The TLS of a connection.
#[derive(Debug)]
pub enum ServerTls {
    /// Terminated here, with the identity that the client presented, if any.
    Established { client_id: Option<Id> },
    /// Passed through.
    Passthru,
}

/// Who a client has to be.
#[derive(Debug)]
pub enum Authentication<S> {
    /// Anybody.
    Unauthenticated,
    /// Anybody over TLS.
    TlsUnauthenticated,
    /// One of these, over TLS.
    TlsAuthenticated { identities: Vec<String>, suffixes: Vec<S> },
}

/// What a policy or an authorization is called.
#[derive(Debug)]
pub enum Meta {
    Default { name: String },
    Resource { group: String, kind: String, name: String },
}

impl Clone for Meta {
    fn clone(&self) -> (r: Self)
        ensures
            r == *self,
    {
        match self {
            Meta::Default { name } => Meta::Default { name: name.clone() },
            Meta::Resource { group, kind, name } => Meta::Resource {
                group: group.clone(),
                kind: kind.clone(),
                name: name.clone(),
            },
        }
    }
}

/// Where a client has to come from, and who it has to be.
#[derive(Debug)]
pub struct Authorization<N, S> {
    pub networks: Vec<N>,
    pub authentication: Authentication<S>,
    pub meta: Meta,
}

/// One rule of a route.
#[derive(Debug)]
pub struct Rule<N, S> {
    pub authorizations: Vec<Authorization<N, S>>,
}

/// A route of an HTTP or gRPC policy.
#[derive(Debug)]
pub struct Route<N, S> {
    pub rules: Vec<Rule<N, S>>,
}

/// What a server speaks, and who may speak to it.
#[derive(Debug)]
pub enum Protocol<N, S> {
    Detect { http: Vec<Route<N, S>>, tcp_authorizations: Vec<Authorization<N, S>> },
    Http1(Vec<Route<N, S>>),
    Http2(Vec<Route<N, S>>),
    Grpc(Vec<Route<N, S>>),
    Opaque(Vec<Authorization<N, S>>),
    Tls(Vec<Authorization<N, S>>),
}

/// The policy of a server. `L` is its rate limit.
#[derive(Debug)]
pub struct ServerPolicy<N, S, L> {
    pub protocol: Protocol<N, S>,
    pub meta: Meta,
    pub local_rate_limit: L,
}

/// The policy of a server that none is known for.
#[derive(Debug)]
pub enum DefaultPolicy<N, S, L> {
    Allow(ServerPolicy<N, S, L>),
    Deny,
}

impl<N, S, L> DefaultPolicy<N, S, L> {
    /// The policy that applies. Denying is an opaque protocol that nobody is
    /// authorized for; `unlimited` is its rate limit.
    pub fn into_policy(self, unlimited: L) -> (r: ServerPolicy<N, S, L>)
        ensures
            self matches DefaultPolicy::Allow(policy) ==> r == policy,
            self is Deny ==> {
                &&& r.protocol matches Protocol::Opaque(authorizations) && authorizations@.len()
                    == 0
                &&& r.meta matches Meta::Default { name } && name@ == "deny"@
                &&& r.local_rate_limit == unlimited
            },
    {
        match self {
            DefaultPolicy::Allow(policy) => policy,
            DefaultPolicy::Deny => ServerPolicy {
                protocol: Protocol::Opaque(Vec::new()),
                meta: Meta::Default { name: "deny".to_owned() },
                local_rate_limit: unlimited,
            },
        }
    }
}

/// A policy that is known is let stand.
impl<N, S, L> From<ServerPolicy<N, S, L>> for DefaultPolicy<N, S, L> {
    fn from(policy: ServerPolicy<N, S, L>) -> (r: Self) {
        DefaultPolicy::Allow(policy)
    }
}

impl<N, S, L> FromSpecImpl<ServerPolicy<N, S, L>> for DefaultPolicy<N, S, L> {
    open spec fn obeys_from_spec() -> bool {
        true
    }

    open spec fn from_spec(policy: ServerPolicy<N, S, L>) -> DefaultPolicy<N, S, L> {
        DefaultPolicy::Allow(policy)
    }
}

/// The routes of a policy that has some.
#[derive(Debug)]
pub enum Routes<'a, N, S> {
    Http(&'a Vec<Route<N, S>>),
    Grpc(&'a Vec<Route<N, S>>),
}

/// The routes of a protocol that has some.
pub open spec fn routes_of<'a, N, S>(protocol: Protocol<N, S>) -> Option<Routes<'a, N, S>> {
    match protocol {
        Protocol::Detect { http, .. } => Some(Routes::Http(&http)),
        Protocol::Http1(http) => Some(Routes::Http(&http)),
        Protocol::Http2(http) => Some(Routes::Http(&http)),
        Protocol::Grpc(grpc) => Some(Routes::Grpc(&grpc)),
        Protocol::Opaque(_) => None,
        Protocol::Tls(_) => None,
    }
}

impl<N, S, L> ServerPolicy<N, S, L> {
    /// The routes that requests are matched against.
    pub fn routes(&self) -> (r: Option<Routes<'_, N, S>>)
        ensures
            r == routes_of(self.protocol),
    {
        match &self.protocol {
            Protocol::Detect { http, .. } => Some(Routes::Http(http)),
            Protocol::Http1(http) => Some(Routes::Http(http)),
            Protocol::Http2(http) => Some(Routes::Http(http)),
            Protocol::Grpc(grpc) => Some(Routes::Grpc(grpc)),
            Protocol::Opaque(_) => None,
            Protocol::Tls(_) => None,
        }
    }
}

/// Which limit a request exceeded.
#[derive(Clone, Copy, Debug, PartialEq, Eq, Structural)]
pub enum RateLimitError {
    Total,
    PerIdentity,
    Override,
}

impl RateLimitError {
    /// The scope of the limit, as it is labelled.
    pub fn scope(&self) -> (r: &'static str)
        ensures
            r@ == if *self == RateLimitError::Total {
                "total"@
            } else {
                "identity"@
            },
    {
        match self {
            RateLimitError::Total => "total",
            RateLimitError::PerIdentity => "identity",
            RateLimitError::Override => "identity",
        }
    }
}

/// Whether a network holds an address, by the caller's word.
pub open spec fn in_network<N, F: Fn(&N, IpAddr) -> bool>(
    holds: F,
    network: N,
    ip: IpAddr,
    r: bool,
) -> bool {
    holds.ensures((&network, ip), r)
}

/// Whether a suffix holds a name, by the caller's word.
pub open spec fn in_suffix<S, G: Fn(&S, &str) -> bool>(
    holds: G,
    suffix: S,
    name: Seq<char>,
    r: bool,
) -> bool {
    exists|s: &str| s@ == name && #[trigger] holds.ensures((&suffix, s), r)
}

/// One of the identities is `name`.
pub open spec fn lists_identity(identities: Seq<String>, name: Seq<char>) -> bool {
    exists|i: int| 0 <= i < identities.len() && (#[trigger] identities[i])@ == name
}

/// The identity of the client, where it presented one over TLS.
pub open spec fn presented(tls: Option<ServerTls>) -> Option<Id> {
    match tls {
        Some(ServerTls::Established { client_id }) => client_id,
        _ => None,
    }
}

/// Whether the TLS of a connection is good enough.
///
/// A URI identity has to be listed. A DNS identity may also end in one of the
/// suffixes.
pub open spec fn tls_verdict<N, S, G: Fn(&S, &str) -> bool>(
    tls: Option<ServerTls>,
    authz: Authorization<N, S>,
    in_suffix_fn: G,
    r: bool,
) -> bool {
    match authz.authentication {
        Authentication::Unauthenticated => r,
        Authentication::TlsUnauthenticated => r == (tls matches Some(
            ServerTls::Established { .. },
        )),
        Authentication::TlsAuthenticated { identities, suffixes } => match presented(tls) {
            None => !r,
            Some(id) => {
                if lists_identity(identities@, id.text()) {
                    r
                } else if id is Uri {
                    !r
                } else {
                    &&& r ==> exists|i: int|
                        0 <= i < suffixes@.len() && in_suffix(
                            in_suffix_fn,
                            #[trigger] suffixes@[i],
                            id.text(),
                            true,
                        )
                    &&& !r ==> forall|i: int|
                        0 <= i < suffixes@.len() ==> in_suffix(
                            in_suffix_fn,
                            #[trigger] suffixes@[i],
                            id.text(),
                            false,
                        )
                }
            },
        },
    }
}

/// Whether `name` is listed.
fn contains_identity(identities: &Vec<String>, name: &String) -> (r: bool)
    ensures
        r == lists_identity(identities@, name@),
{
    let mut i: usize = 0;
    while i < identities.len()
        invariant
            i <= identities.len(),
            forall|j: int| 0 <= j < i ==> (#[trigger] identities@[j])@ != name@,
        decreases identities.len() - i,
    {
        if identities[i] == *name {
            assert(identities@[i as int]@ == name@);
            return true;
        }
        i = i + 1;
    }
    false
}

/// Whether one of the suffixes holds `name`.
fn any_suffix<S, G: Fn(&S, &str) -> bool>(suffixes: &Vec<S>, name: &str, holds: &G) -> (r: bool)
    requires
        forall|s: S, n: &str| holds.requires((&s, n)),
    ensures
        r ==> exists|i: int|
            0 <= i < suffixes@.len() && in_suffix(*holds, #[trigger] suffixes@[i], name@, true),
        !r ==> forall|i: int|
            0 <= i < suffixes@.len() ==> in_suffix(*holds, #[trigger] suffixes@[i], name@, false),
{
    let mut i: usize = 0;
    while i < suffixes.len()
        invariant
            i <= suffixes.len(),
            forall|s: S, n: &str| holds.requires((&s, n)),
            forall|j: int|
                0 <= j < i ==> in_suffix(*holds, #[trigger] suffixes@[j], name@, false),
        decreases suffixes.len() - i,
    {
        let held: bool = holds(&suffixes[i], name);
        assert(holds.ensures((&suffixes@[i as int], name), held));
        assert(in_suffix(*holds, suffixes@[i as int], name@, held));
        if held {
            return true;
        }
        i = i + 1;
    }
    false
}

/// Whether the TLS of a connection is good enough for the authorization.
pub fn is_tls_authorized<N, S, G: Fn(&S, &str) -> bool>(
    tls: &Option<ServerTls>,
    authz: &Authorization<N, S>,
    suffix_holds: &G,
) -> (r: bool)
    requires
        forall|s: S, n: &str| suffix_holds.requires((&s, n)),
    ensures
        tls_verdict(*tls, *authz, *suffix_holds, r),
{
    match &authz.authentication {
        Authentication::Unauthenticated => true,
        Authentication::TlsUnauthenticated => match tls {
            Some(ServerTls::Established { .. }) => true,
            _ => false,
        },
        Authentication::TlsAuthenticated { identities, suffixes } => match tls {
            Some(ServerTls::Established { client_id: Some(id) }) => {
                if contains_identity(identities, &id.to_str().to_owned()) {
                    return true;
                }
                match id {
                    Id::Uri(_) => false,
                    Id::Dns(_) => any_suffix(suffixes, id.to_str(), suffix_holds),
                }
            },
            _ => false,
        },
    }
}

/// Whether a client is authorized: it has to come from one of the networks,
/// and its TLS has to be good enough.
pub open spec fn authz_verdict<
    N,
    S,
    F: Fn(&N, IpAddr) -> bool,
    G: Fn(&S, &str) -> bool,
>(
    authz: Authorization<N, S>,
    client: SocketAddr,
    tls: Option<ServerTls>,
    network_holds: F,
    suffix_holds: G,
    r: bool,
) -> bool {
    let from_outside = forall|i: int|
        0 <= i < authz.networks@.len() ==> in_network(
            network_holds,
            #[trigger] authz.networks@[i],
            client.spec_ip(),
            false,
        );
    let from_inside = exists|i: int|
        0 <= i < authz.networks@.len() && in_network(
            network_holds,
            #[trigger] authz.networks@[i],
            client.spec_ip(),
            true,
        );
    if r {
        from_inside && tls_verdict(tls, authz, suffix_holds, true)
    } else {
        from_outside || (from_inside && tls_verdict(tls, authz, suffix_holds, false))
    }
}

/// Whether a client is authorized.
pub fn is_authorized<N, S, F: Fn(&N, IpAddr) -> bool, G: Fn(&S, &str) -> bool>(
    authz: &Authorization<N, S>,
    client: SocketAddr,
    tls: &Option<ServerTls>,
    network_holds: &F,
    suffix_holds: &G,
) -> (r: bool)
    requires
        forall|n: N, ip: IpAddr| network_holds.requires((&n, ip)),
        forall|s: S, n: &str| suffix_holds.requires((&s, n)),
    ensures
        authz_verdict(*authz, client, *tls, *network_holds, *suffix_holds, r),
{
    let ip: IpAddr = client.ip();
    let mut i: usize = 0;
    while i < authz.networks.len()
        invariant
            i <= authz.networks.len(),
            ip == client.spec_ip(),
            forall|n: N, ip: IpAddr| network_holds.requires((&n, ip)),
            forall|s: S, n: &str| suffix_holds.requires((&s, n)),
            forall|j: int|
                0 <= j < i ==> in_network(*network_holds, #[trigger] authz.networks@[j], ip, false),
        decreases authz.networks.len() - i,
    {
        let held: bool = network_holds(&authz.networks[i], ip);
        assert(in_network(*network_holds, authz.networks@[i as int], ip, held));
        if held {
            return is_tls_authorized(tls, authz, suffix_holds);
        }
        i = i + 1;
    }
    false
}

/// Whether one of the authorizations lets the client in.
pub open spec fn any_verdict<N, S, F: Fn(&N, IpAddr) -> bool, G: Fn(&S, &str) -> bool>(
    authorizations: Seq<Authorization<N, S>>,
    client: SocketAddr,
    tls: Option<ServerTls>,
    network_holds: F,
    suffix_holds: G,
    r: bool,
) -> bool {
    &&& r ==> exists|i: int|
        0 <= i < authorizations.len() && authz_verdict(
            #[trigger] authorizations[i],
            client,
            tls,
            network_holds,
            suffix_holds,
            true,
        )
    &&& !r ==> forall|i: int|
        0 <= i < authorizations.len() ==> authz_verdict(
            #[trigger] authorizations[i],
            client,
            tls,
            network_holds,
            suffix_holds,
            false,
        )
}

fn any_admits<N, S, F: Fn(&N, IpAddr) -> bool, G: Fn(&S, &str) -> bool>(
    authorizations: &Vec<Authorization<N, S>>,
    client: SocketAddr,
    tls: &Option<ServerTls>,
    network_holds: &F,
    suffix_holds: &G,
) -> (r: bool)
    requires
        forall|n: N, ip: IpAddr| network_holds.requires((&n, ip)),
        forall|s: S, n: &str| suffix_holds.requires((&s, n)),
    ensures
        any_verdict(authorizations@, client, *tls, *network_holds, *suffix_holds, r),
{
    let mut i: usize = 0;
    while i < authorizations.len()
        invariant
            i <= authorizations.len(),
            forall|n: N, ip: IpAddr| network_holds.requires((&n, ip)),
            forall|s: S, n: &str| suffix_holds.requires((&s, n)),
            forall|j: int|
                0 <= j < i ==> authz_verdict(
                    #[trigger] authorizations@[j],
                    client,
                    *tls,
                    *network_holds,
                    *suffix_holds,
                    false,
                ),
        decreases authorizations.len() - i,
    {
        if is_authorized(&authorizations[i], client, tls, network_holds, suffix_holds) {
            return true;
        }
        i = i + 1;
    }
    false
}

/// Whether a rule of one of the routes lets the client in.
pub open spec fn routes_verdict<N, S, F: Fn(&N, IpAddr) -> bool, G: Fn(&S, &str) -> bool>(
    routes: Seq<Route<N, S>>,
    client: SocketAddr,
    tls: Option<ServerTls>,
    network_holds: F,
    suffix_holds: G,
    r: bool,
) -> bool {
    &&& r ==> exists|i: int, j: int|
        0 <= i < routes.len() && 0 <= j < routes[i].rules@.len() && any_verdict(
            (#[trigger] routes[i].rules@[j]).authorizations@,
            client,
            tls,
            network_holds,
            suffix_holds,
            true,
        )
    &&& !r ==> forall|i: int, j: int|
        0 <= i < routes.len() && 0 <= j < routes[i].rules@.len() ==> any_verdict(
            (#[trigger] routes[i].rules@[j]).authorizations@,
            client,
            tls,
            network_holds,
            suffix_holds,
            false,
        )
}

fn any_route_admits<N, S, F: Fn(&N, IpAddr) -> bool, G: Fn(&S, &str) -> bool>(
    routes: &Vec<Route<N, S>>,
    client: SocketAddr,
    tls: &Option<ServerTls>,
    network_holds: &F,
    suffix_holds: &G,
) -> (r: bool)
    requires
        forall|n: N, ip: IpAddr| network_holds.requires((&n, ip)),
        forall|s: S, n: &str| suffix_holds.requires((&s, n)),
    ensures
        routes_verdict(routes@, client, *tls, *network_holds, *suffix_holds, r),
{
    let mut i: usize = 0;
    while i < routes.len()
        invariant
            i <= routes.len(),
            forall|n: N, ip: IpAddr| network_holds.requires((&n, ip)),
            forall|s: S, n: &str| suffix_holds.requires((&s, n)),
            forall|k: int, l: int|
                0 <= k < i && 0 <= l < routes@[k].rules@.len() ==> any_verdict(
                    (#[trigger] routes@[k].rules@[l]).authorizations@,
                    client,
                    *tls,
                    *network_holds,
                    *suffix_holds,
                    false,
                ),
        decreases routes.len() - i,
    {
        let rules = &routes[i].rules;
        let mut j: usize = 0;
        while j < rules.len()
            invariant
                i < routes.len(),
                *rules == routes@[i as int].rules,
                j <= rules.len(),
                forall|n: N, ip: IpAddr| network_holds.requires((&n, ip)),
                forall|s: S, n: &str| suffix_holds.requires((&s, n)),
                forall|l: int|
                    0 <= l < j ==> any_verdict(
                        (#[trigger] routes@[i as int].rules@[l]).authorizations@,
                        client,
                        *tls,
                        *network_holds,
                        *suffix_holds,
                        false,
                    ),
            decreases rules.len() - j,
        {
            let admits: bool = any_admits(
                &rules[j].authorizations,
                client,
                tls,
                network_holds,
                suffix_holds,
            );
            if admits {
                assert(any_verdict(
                    routes@[i as int].rules@[j as int].authorizations@,
                    client,
                    *tls,
                    *network_holds,
                    *suffix_holds,
                    true,
                ));
                return true;
            }
            j = j + 1;
        }
        i = i + 1;
    }
    false
}

/// Whether a policy lets a connection in.
///
/// The verdict is per protocol. Detection, TLS and opaque protocols name the
/// authorizations of a connection. The HTTP protocols name only those of their
/// routes: the connection is refused exactly when no route could ever let the
/// client in.
pub open spec fn connection_says<N, S, L, F: Fn(&N, IpAddr) -> bool, G: Fn(&S, &str) -> bool>(
    policy: ServerPolicy<N, S, L>,
    client: SocketAddr,
    tls: Option<ServerTls>,
    network_holds: F,
    suffix_holds: G,
    r: bool,
) -> bool {
    match policy.protocol {
        Protocol::Detect { tcp_authorizations, .. } => any_verdict(
            tcp_authorizations@,
            client,
            tls,
            network_holds,
            suffix_holds,
            r,
        ),
        Protocol::Opaque(authorizations) => any_verdict(
            authorizations@,
            client,
            tls,
            network_holds,
            suffix_holds,
            r,
        ),
        Protocol::Tls(authorizations) => any_verdict(
            authorizations@,
            client,
            tls,
            network_holds,
            suffix_holds,
            r,
        ),
        Protocol::Http1(routes) => routes_verdict(
            routes@,
            client,
            tls,
            network_holds,
            suffix_holds,
            r,
        ),
        Protocol::Http2(routes) => routes_verdict(
            routes@,
            client,
            tls,
            network_holds,
            suffix_holds,
            r,
        ),
        Protocol::Grpc(routes) => routes_verdict(
            routes@,
            client,
            tls,
            network_holds,
            suffix_holds,
            r,
        ),
    }
}

/// Whether this policy lets a connection from `client` in, without building a
/// stack for it. `network_holds` and `suffix_holds` match the policy's
/// networks and suffixes.
pub fn connection_verdict<N, S, L, F: Fn(&N, IpAddr) -> bool, G: Fn(&S, &str) -> bool>(
    policy: &ServerPolicy<N, S, L>,
    client: SocketAddr,
    tls: &Option<ServerTls>,
    network_holds: &F,
    suffix_holds: &G,
) -> (r: bool)
    requires
        forall|n: N, ip: IpAddr| network_holds.requires((&n, ip)),
        forall|s: S, n: &str| suffix_holds.requires((&s, n)),
    ensures
        connection_says(*policy, client, *tls, *network_holds, *suffix_holds, r),
{
    match &policy.protocol {
        Protocol::Detect { tcp_authorizations, .. } => any_admits(
            tcp_authorizations,
            client,
            tls,
            network_holds,
            suffix_holds,
        ),
        Protocol::Opaque(authorizations) => any_admits(
            authorizations,
            client,
            tls,
            network_holds,
            suffix_holds,
        ),
        Protocol::Tls(authorizations) => any_admits(
            authorizations,
            client,
            tls,
            network_holds,
            suffix_holds,
        ),
        Protocol::Http1(routes) => any_route_admits(
            routes,
            client,
            tls,
            network_holds,
            suffix_holds,
        ),
        Protocol::Http2(routes) => any_route_admits(
            routes,
            client,
            tls,
            network_holds,
            suffix_holds,
        ),
        Protocol::Grpc(routes) => any_route_admits(
            routes,
            client,
            tls,
            network_holds,
            suffix_holds,
        ),
    }
}

/// `id` is what the text says of a client: nobody where there is no text, where
/// it is empty, or where `parse` makes no identity of it.
pub open spec fn identified<P: Fn(&str) -> Option<Id>>(
    identity: Option<&str>,
    parse: P,
    id: Option<Id>,
) -> bool {
    match identity {
        None => id is None,
        Some(text) => if text@.len() == 0 {
            id is None
        } else {
            parse.ensures((text,), id)
        },
    }
}

/// The policy of one original destination.
#[derive(Debug)]
pub struct AllowPolicy<N, S, L> {
    pub dst: SocketAddr,
    pub server: ServerPolicy<N, S, L>,
}

/// Where the policies of destinations come from.
pub trait GetPolicy<N, S, L> {
    /// The policy that is configured for the destination.
    fn get_policy(&self, dst: SocketAddr) -> AllowPolicy<N, S, L>;
}

/// A store may be held behind a pointer, so that a caller that binds one per
/// workload can keep them in a map.
impl<N, S, L, T: GetPolicy<N, S, L>> GetPolicy<N, S, L> for std::sync::Arc<T> {
    fn get_policy(&self, dst: SocketAddr) -> (r: AllowPolicy<N, S, L>)
        ensures
            call_ensures(T::get_policy, (&**self, dst), r),
    {
        (**self).get_policy(dst)
    }
}

/// A server, as it is labelled: what its policy is called, and its port.
#[derive(Debug)]
pub struct ServerLabel {
    pub meta: Meta,
    pub port: u16,
}

/// How a rate-limited request is labelled.
#[derive(Debug)]
pub struct HTTPLocalRateLimitLabels {
    pub server: ServerLabel,
    /// What the limit is called, if it is called anything.
    pub rate_limit: Option<Meta>,
    pub scope: &'static str,
}

/// How an authorized connection is labelled.
#[derive(Debug)]
pub struct ServerAuthzLabels {
    pub server: ServerLabel,
    pub authz: Meta,
}

/// An authorized connection that is not HTTP.
#[derive(Debug)]
pub struct ServerPermit<'a, N, S> {
    pub dst: SocketAddr,
    pub protocol: &'a Protocol<N, S>,
    pub labels: ServerAuthzLabels,
}

impl<'a, N, S> ServerPermit<'a, N, S> {
    /// The permit that an authorization of a server's policy gives.
    pub fn new<L>(
        dst: SocketAddr,
        server: &'a ServerPolicy<N, S, L>,
        authz: &Authorization<N, S>,
    ) -> (r: Self)
        ensures
            r.dst == dst,
            *r.protocol == server.protocol,
            r.labels.authz == authz.meta,
            r.labels.server == (ServerLabel { meta: server.meta, port: dst.spec_port() }),
    {
        ServerPermit {
            dst,
            protocol: &server.protocol,
            labels: ServerAuthzLabels {
                authz: authz.meta.clone(),
                server: ServerLabel { meta: server.meta.clone(), port: dst.port() },
            },
        }
    }
}

impl<N, S, L> AllowPolicy<N, S, L> {
    pub fn dst_addr(&self) -> (r: SocketAddr)
        ensures
            r == self.dst,
    {
        self.dst
    }

    pub fn meta(&self) -> (r: Meta)
        ensures
            r == self.server.meta,
    {
        self.server.meta.clone()
    }

    pub fn server_label(&self) -> (r: ServerLabel)
        ensures
            r == (ServerLabel { meta: self.server.meta, port: self.dst.spec_port() }),
    {
        ServerLabel { meta: self.server.meta.clone(), port: self.dst.port() }
    }

    /// How a request that exceeded a limit is labelled. `rate_limit` is what
    /// the policy's limit is called.
    pub fn ratelimit_label(&self, error: &RateLimitError, rate_limit: Option<Meta>) -> (r:
        HTTPLocalRateLimitLabels)
        ensures
            r.server == (ServerLabel { meta: self.server.meta, port: self.dst.spec_port() }),
            r.rate_limit == rate_limit,
            r.scope@ == if *error == RateLimitError::Total {
                "total"@
            } else {
                "identity"@
            },
    {
        HTTPLocalRateLimitLabels { server: self.server_label(), rate_limit, scope: error.scope() }
    }

    /// Whether the policy lets a connection in.
    pub fn admits<F: Fn(&N, IpAddr) -> bool, G: Fn(&S, &str) -> bool>(
        &self,
        client: SocketAddr,
        tls: &Option<ServerTls>,
        network_holds: &F,
        suffix_holds: &G,
    ) -> (r: bool)
        requires
            forall|n: N, ip: IpAddr| network_holds.requires((&n, ip)),
            forall|s: S, n: &str| suffix_holds.requires((&s, n)),
        ensures
            connection_says(self.server, client, *tls, *network_holds, *suffix_holds, r),
    {
        connection_verdict(&self.server, client, tls, network_holds, suffix_holds)
    }

    /// The routes that requests are matched against.
    pub fn routes(&self) -> (r: Option<Routes<'_, N, S>>)
        ensures
            r == routes_of(self.server.protocol),
    {
        self.server.routes()
    }
}

/// The identity of a client that was handed over as text.
pub fn client_identity<P: Fn(&str) -> Option<Id>>(identity: Option<&str>, parse: &P) -> (r: Option<
    Id,
>)
    requires
        forall|text: &str| parse.requires((text,)),
    ensures
        identified(identity, *parse, r),
{
    match identity {
        None => None,
        Some(text) => {
            if text.is_empty() {
                None
            } else {
                parse(text)
            }
        },
    }
}

/// `r` is the verdict on a client that the text identifies.
pub open spec fn dmesh_connection_says<
    N,
    S,
    L,
    F: Fn(&N, IpAddr) -> bool,
    G: Fn(&S, &str) -> bool,
    P: Fn(&str) -> Option<Id>,
>(
    policy: ServerPolicy<N, S, L>,
    client: SocketAddr,
    identity: Option<&str>,
    parse: P,
    network_holds: F,
    suffix_holds: G,
    r: bool,
) -> bool {
    exists|client_id: Option<Id>|
        #[trigger] identified(identity, parse, client_id) && connection_says(
            policy,
            client,
            Some(ServerTls::Established { client_id }),
            network_holds,
            suffix_holds,
            r,
        )
}

/// Whether a policy lets a connection in from a client that the text
/// identifies.
///
/// `client` is the source's real address, because an authorization's networks
/// are matched first. The identity is presented as established TLS, because
/// nothing else matches an authenticated client; a client without one is
/// established and anonymous.
pub fn identified_verdict<
    N,
    S,
    L,
    F: Fn(&N, IpAddr) -> bool,
    G: Fn(&S, &str) -> bool,
    P: Fn(&str) -> Option<Id>,
>(
    policy: &ServerPolicy<N, S, L>,
    client: SocketAddr,
    identity: Option<&str>,
    parse: &P,
    network_holds: &F,
    suffix_holds: &G,
) -> (r: bool)
    requires
        forall|n: N, ip: IpAddr| network_holds.requires((&n, ip)),
        forall|s: S, n: &str| suffix_holds.requires((&s, n)),
        forall|text: &str| parse.requires((text,)),
    ensures
        dmesh_connection_says(*policy, client, identity, *parse, *network_holds, *suffix_holds, r),
{
    let client_id: Option<Id> = client_identity(identity, parse);
    let ghost id = client_id;
    let tls: Option<ServerTls> = Some(ServerTls::Established { client_id });
    let r: bool = connection_verdict(policy, client, &tls, network_holds, suffix_holds);
    assert(tls == Some(ServerTls::Established { client_id: id }));
    r
}

/// Whether the policy that `store` has for a destination lets a connection in.
pub fn dmesh_connection_verdict<
    N,
    S,
    L,
    T: GetPolicy<N, S, L>,
    F: Fn(&N, IpAddr) -> bool,
    G: Fn(&S, &str) -> bool,
    P: Fn(&str) -> Option<Id>,
>(
    store: &T,
    destination: SocketAddr,
    client: SocketAddr,
    identity: Option<&str>,
    parse: &P,
    network_holds: &F,
    suffix_holds: &G,
) -> (r: bool)
    requires
        forall|n: N, ip: IpAddr| network_holds.requires((&n, ip)),
        forall|s: S, n: &str| suffix_holds.requires((&s, n)),
        forall|text: &str| parse.requires((text,)),
    ensures
        exists|policy: AllowPolicy<N, S, L>| #[trigger]
            call_ensures(T::get_policy, (store, destination), policy) && dmesh_connection_says(
                policy.server,
                client,
                identity,
                *parse,
                *network_holds,
                *suffix_holds,
                r,
            ),
{
    let policy: AllowPolicy<N, S, L> = store.get_policy(destination);
    let r: bool = identified_verdict(
        &policy.server,
        client,
        identity,
        parse,
        network_holds,
        suffix_holds,
    );
    assert(call_ensures(T::get_policy, (store, destination), policy));
    r
}

/// Where a listener's policies come from. `P` is the policy of a port.
#[derive(Debug)]
pub enum PolicyConfig<D, P> {
    /// The controller is asked about each port.
    Discover {
        default: D,
        initial_ports: Vec<u16>,
        cache_max_idle_age: u64,
        opaque_ports: Vec<u16>,
    },
    /// Each port has its policy, and the others the default one.
    Fixed {
        default: D,
        ports: Vec<(u16, P)>,
        cache_max_idle_age: u64,
        opaque_ports: Vec<u16>,
    },
}

/// The same policies by port, copied.
pub open spec fn ports_copied<P: Clone>(ports: Seq<(u16, P)>, copy: Seq<(u16, P)>) -> bool {
    &&& copy.len() == ports.len()
    &&& forall|i: int|
        0 <= i < ports.len() ==> (#[trigger] copy[i]).0 == ports[i].0 && cloned(ports[i].1, copy[i].1)
}

fn copy_ports<P: Clone>(ports: &Vec<(u16, P)>) -> (r: Vec<(u16, P)>)
    ensures
        ports_copied(ports@, r@),
{
    let mut copy: Vec<(u16, P)> = Vec::new();
    let mut i: usize = 0;
    while i < ports.len()
        invariant
            i <= ports.len(),
            ports_copied(ports@.take(i as int), copy@),
        decreases ports.len() - i,
    {
        assert(ports@.take(i + 1).drop_last() =~= ports@.take(i as int));
        copy.push((ports[i].0, ports[i].1.clone()));
        i = i + 1;
    }
    assert(ports@.take(i as int) =~= ports@);
    copy
}

impl<D: Clone, P: Clone> PolicyConfig<D, P> {
    /// The configuration of the proxy's own listeners, and the one that the
    /// stores of workloads are built from.
    ///
    /// The proxy's own ports are ephemeral and belong to no workload, so asking
    /// the controller about them is no use: nothing is discovered for them, and
    /// every port has the default policy. The stores of workloads keep what was
    /// configured. A fixed configuration stays as it is for both.
    pub fn disable_inbound_policy_discovery(self) -> (r: (Self, Self))
        ensures
            r.1 == self,
            r.0 is Fixed,
            self is Fixed ==> {
                &&& cloned(self->Fixed_default, r.0->Fixed_default)
                &&& ports_copied(self->Fixed_ports@, r.0->Fixed_ports@)
                &&& r.0->Fixed_cache_max_idle_age == self->Fixed_cache_max_idle_age
                &&& r.0->Fixed_opaque_ports@ == self->Fixed_opaque_ports@
            },
            self is Discover ==> {
                &&& cloned(self->Discover_default, r.0->Fixed_default)
                &&& r.0->Fixed_ports@.len() == 0
                &&& r.0->Fixed_cache_max_idle_age == self->Discover_cache_max_idle_age
                &&& r.0->Fixed_opaque_ports@ == self->Discover_opaque_ports@
            },
    {
        let own = match &self {
            PolicyConfig::Discover { default, initial_ports: _, cache_max_idle_age, opaque_ports } => {
                PolicyConfig::Fixed {
                    default: default.clone(),
                    ports: Vec::new(),
                    cache_max_idle_age: *cache_max_idle_age,
                    opaque_ports: opaque_ports.clone(),
                }
            },
            PolicyConfig::Fixed { default, ports, cache_max_idle_age, opaque_ports } => {
                PolicyConfig::Fixed {
                    default: default.clone(),
                    ports: copy_ports(ports),
                    cache_max_idle_age: *cache_max_idle_age,
                    opaque_ports: opaque_ports.clone(),
                }
            },
        };
        assert(self is Discover ==> own->Fixed_opaque_ports@ =~= self->Discover_opaque_ports@);
        assert(self is Fixed ==> own->Fixed_opaque_ports@ =~= self->Fixed_opaque_ports@);
        (own, self)
    }
}

/// Denying lets nobody in, whoever asks from wherever.
pub proof fn denying_lets_nobody_in<
    N,
    S,
    L,
    F: Fn(&N, IpAddr) -> bool,
    G: Fn(&S, &str) -> bool,
>(
    policy: ServerPolicy<N, S, L>,
    client: SocketAddr,
    tls: Option<ServerTls>,
    network_holds: F,
    suffix_holds: G,
    r: bool,
)
    requires
        policy.protocol matches Protocol::Opaque(authorizations) && authorizations@.len() == 0,
        connection_says(policy, client, tls, network_holds, suffix_holds, r),
    ensures
        !r,
{
}

/// An authorization without a network lets nobody in.
pub proof fn no_network_no_entry<N, S, F: Fn(&N, IpAddr) -> bool, G: Fn(&S, &str) -> bool>(
    authz: Authorization<N, S>,
    client: SocketAddr,
    tls: Option<ServerTls>,
    network_holds: F,
    suffix_holds: G,
    r: bool,
)
    requires
        authz.networks@.len() == 0,
        authz_verdict(authz, client, tls, network_holds, suffix_holds, r),
    ensures
        !r,
{
}

/// A name suffix never stands for a URI identity: a client with one is let in
/// only where the identity itself is listed.
pub proof fn suffixes_are_for_names<N, S, G: Fn(&S, &str) -> bool>(
    tls: Option<ServerTls>,
    authz: Authorization<N, S>,
    suffix_holds: G,
    r: bool,
)
    requires
        authz.authentication is TlsAuthenticated,
        presented(tls) matches Some(id) && id is Uri,
        tls_verdict(tls, authz, suffix_holds, r),
    ensures
        r == lists_identity(authz.authentication->identities@, presented(tls)->0.text()),
{
}

/// `says` is what a caller's match of networks and addresses gives, the same
/// each time it is asked.
pub open spec fn matches_networks<N, F: Fn(&N, IpAddr) -> bool>(
    holds: F,
    says: spec_fn(N, IpAddr) -> bool,
) -> bool {
    forall|n: N, ip: IpAddr, r: bool| #[trigger] holds.ensures((&n, ip), r) ==> r == says(n, ip)
}

/// `says` is what a caller's match of suffixes and names gives, the same each
/// time it is asked.
pub open spec fn matches_suffixes<S, G: Fn(&S, &str) -> bool>(
    holds: G,
    says: spec_fn(S, Seq<char>) -> bool,
) -> bool {
    forall|s: S, name: &str, r: bool| #[trigger]
        holds.ensures((&s, name), r) ==> r == says(s, name@)
}

/// A client over this TLS is one that the authentication asks for.
pub open spec fn is_asked_for<S>(
    authentication: Authentication<S>,
    tls: Option<ServerTls>,
    ends_in: spec_fn(S, Seq<char>) -> bool,
) -> bool {
    match authentication {
        Authentication::Unauthenticated => true,
        Authentication::TlsUnauthenticated => tls is Some && tls->0 is Established,
        Authentication::TlsAuthenticated { identities, suffixes } => match tls {
            Some(ServerTls::Established { client_id: Some(Id::Uri(uri)) }) => exists|i: int|
                0 <= i < identities@.len() && (#[trigger] identities@[i])@ == uri@,
            Some(ServerTls::Established { client_id: Some(Id::Dns(name)) }) => (exists|i: int|
                0 <= i < identities@.len() && (#[trigger] identities@[i])@ == name@) || (exists|
                i: int,
            |
                0 <= i < suffixes@.len() && ends_in(#[trigger] suffixes@[i], name@)),
            _ => false,
        },
    }
}

/// The authorization lets the client in: one of its networks holds the client's
/// address, and the client is one that it asks for.
pub open spec fn lets_in<N, S>(
    authz: Authorization<N, S>,
    client: SocketAddr,
    tls: Option<ServerTls>,
    contains: spec_fn(N, IpAddr) -> bool,
    ends_in: spec_fn(S, Seq<char>) -> bool,
) -> bool {
    let ip = match client {
        SocketAddr::V4(addr) => IpAddr::V4(addr.ip),
        SocketAddr::V6(addr) => IpAddr::V6(addr.ip),
    };
    (exists|i: int|
        0 <= i < authz.networks@.len() && contains(#[trigger] authz.networks@[i], ip))
        && is_asked_for(authz.authentication, tls, ends_in)
}

proof fn tls_verdict_is<N, S, G: Fn(&S, &str) -> bool>(
    tls: Option<ServerTls>,
    authz: Authorization<N, S>,
    suffix_holds: G,
    ends_in: spec_fn(S, Seq<char>) -> bool,
    r: bool,
)
    requires
        matches_suffixes(suffix_holds, ends_in),
        tls_verdict(tls, authz, suffix_holds, r),
    ensures
        r == is_asked_for(authz.authentication, tls, ends_in),
{
    if let Authentication::TlsAuthenticated { identities, suffixes } = authz.authentication {
        if let Some(id) = presented(tls) {
            let name = id.text();
            assert forall|s: S, held: bool| #[trigger]
                in_suffix(suffix_holds, s, name, held) implies held == ends_in(s, name) by {
                let text = choose|text: &str|
                    text@ == name && #[trigger] suffix_holds.ensures((&s, text), held);
                assert(suffix_holds.ensures((&s, text), held));
            }
            if !lists_identity(identities@, name) && id is Dns {
                if r {
                    let i = choose|i: int|
                        0 <= i < suffixes@.len() && in_suffix(
                            suffix_holds,
                            #[trigger] suffixes@[i],
                            name,
                            true,
                        );
                    assert(ends_in(suffixes@[i], name));
                } else {
                    assert forall|i: int| 0 <= i < suffixes@.len() implies !ends_in(
                        #[trigger] suffixes@[i],
                        name,
                    ) by {
                        assert(in_suffix(suffix_holds, suffixes@[i], name, false));
                    }
                }
            }
        }
    }
}

proof fn authz_verdict_is<N, S, F: Fn(&N, IpAddr) -> bool, G: Fn(&S, &str) -> bool>(
    authz: Authorization<N, S>,
    client: SocketAddr,
    tls: Option<ServerTls>,
    network_holds: F,
    suffix_holds: G,
    contains: spec_fn(N, IpAddr) -> bool,
    ends_in: spec_fn(S, Seq<char>) -> bool,
    r: bool,
)
    requires
        matches_networks(network_holds, contains),
        matches_suffixes(suffix_holds, ends_in),
        authz_verdict(authz, client, tls, network_holds, suffix_holds, r),
    ensures
        r == lets_in(authz, client, tls, contains, ends_in),
{
    let ip = client.spec_ip();
    assert forall|n: N, held: bool| #[trigger]
        in_network(network_holds, n, ip, held) implies held == contains(n, ip) by {
        assert(network_holds.ensures((&n, ip), held));
    }
    if tls_verdict(tls, authz, suffix_holds, r) {
        tls_verdict_is(tls, authz, suffix_holds, ends_in, r);
    }
    let from_inside = exists|i: int|
        0 <= i < authz.networks@.len() && in_network(
            network_holds,
            #[trigger] authz.networks@[i],
            ip,
            true,
        );
    if from_inside {
        let i = choose|i: int|
            0 <= i < authz.networks@.len() && in_network(
                network_holds,
                #[trigger] authz.networks@[i],
                ip,
                true,
            );
        assert(contains(authz.networks@[i], ip));
    } else {
        assert forall|i: int| 0 <= i < authz.networks@.len() implies !contains(
            #[trigger] authz.networks@[i],
            ip,
        ) by {
            assert(in_network(network_holds, authz.networks@[i], ip, false));
        }
    }
}

proof fn any_verdict_is<N, S, F: Fn(&N, IpAddr) -> bool, G: Fn(&S, &str) -> bool>(
    authorizations: Seq<Authorization<N, S>>,
    client: SocketAddr,
    tls: Option<ServerTls>,
    network_holds: F,
    suffix_holds: G,
    contains: spec_fn(N, IpAddr) -> bool,
    ends_in: spec_fn(S, Seq<char>) -> bool,
    r: bool,
)
    requires
        matches_networks(network_holds, contains),
        matches_suffixes(suffix_holds, ends_in),
        any_verdict(authorizations, client, tls, network_holds, suffix_holds, r),
    ensures
        r <==> exists|i: int|
            0 <= i < authorizations.len() && lets_in(
                #[trigger] authorizations[i],
                client,
                tls,
                contains,
                ends_in,
            ),
{
    assert forall|i: int, held: bool|
        #![trigger authz_verdict(authorizations[i], client, tls, network_holds, suffix_holds, held)]
        0 <= i < authorizations.len() && authz_verdict(
            authorizations[i],
            client,
            tls,
            network_holds,
            suffix_holds,
            held,
        ) implies held == lets_in(authorizations[i], client, tls, contains, ends_in) by {
        authz_verdict_is(
            authorizations[i],
            client,
            tls,
            network_holds,
            suffix_holds,
            contains,
            ends_in,
            held,
        );
    }
    if r {
        let i = choose|i: int|
            0 <= i < authorizations.len() && authz_verdict(
                #[trigger] authorizations[i],
                client,
                tls,
                network_holds,
                suffix_holds,
                true,
            );
        assert(lets_in(authorizations[i], client, tls, contains, ends_in));
    } else {
        assert forall|i: int| 0 <= i < authorizations.len() implies !lets_in(
            #[trigger] authorizations[i],
            client,
            tls,
            contains,
            ends_in,
        ) by {
            assert(authz_verdict(
                authorizations[i],
                client,
                tls,
                network_holds,
                suffix_holds,
                false,
            ));
        }
    }
}

proof fn routes_verdict_is<N, S, F: Fn(&N, IpAddr) -> bool, G: Fn(&S, &str) -> bool>(
    routes: Seq<Route<N, S>>,
    client: SocketAddr,
    tls: Option<ServerTls>,
    network_holds: F,
    suffix_holds: G,
    contains: spec_fn(N, IpAddr) -> bool,
    ends_in: spec_fn(S, Seq<char>) -> bool,
    r: bool,
)
    requires
        matches_networks(network_holds, contains),
        matches_suffixes(suffix_holds, ends_in),
        routes_verdict(routes, client, tls, network_holds, suffix_holds, r),
    ensures
        r <==> exists|i: int, j: int, k: int|
            0 <= i < routes.len() && 0 <= j < routes[i].rules@.len() && 0 <= k
                < routes[i].rules@[j].authorizations@.len() && lets_in(
                #[trigger] routes[i].rules@[j].authorizations@[k],
                client,
                tls,
                contains,
                ends_in,
            ),
{
    if r {
        let (i, j) = choose|i: int, j: int|
            0 <= i < routes.len() && 0 <= j < routes[i].rules@.len() && any_verdict(
                (#[trigger] routes[i].rules@[j]).authorizations@,
                client,
                tls,
                network_holds,
                suffix_holds,
                true,
            );
        let list = routes[i].rules@[j].authorizations@;
        any_verdict_is(list, client, tls, network_holds, suffix_holds, contains, ends_in, true);
        let k = choose|k: int|
            0 <= k < list.len() && lets_in(#[trigger] list[k], client, tls, contains, ends_in);
        assert(lets_in(
            routes[i].rules@[j].authorizations@[k],
            client,
            tls,
            contains,
            ends_in,
        ));
    } else {
        assert forall|i: int, j: int, k: int|
            0 <= i < routes.len() && 0 <= j < routes[i].rules@.len() && 0 <= k
                < routes[i].rules@[j].authorizations@.len() implies !lets_in(
            #[trigger] routes[i].rules@[j].authorizations@[k],
            client,
            tls,
            contains,
            ends_in,
        ) by {
            let list = routes[i].rules@[j].authorizations@;
            assert(any_verdict(
                routes[i].rules@[j].authorizations@,
                client,
                tls,
                network_holds,
                suffix_holds,
                false,
            ));
            any_verdict_is(list, client, tls, network_holds, suffix_holds, contains, ends_in, false);
            assert(!lets_in(list[k], client, tls, contains, ends_in));
        }
    }
}

/// A client is authorized exactly where one of the authorization's networks
/// holds its address and the authorization asks for nobody in particular; or
/// for any TLS that is terminated here, and the client's is; or for an identity,
/// and the client presented one over such a TLS that is listed or, where it is a
/// name, ends in one of the suffixes.
pub proof fn a_client_is_authorized_by_network_and_identity<
    N,
    S,
    F: Fn(&N, IpAddr) -> bool,
    G: Fn(&S, &str) -> bool,
>(
    authz: Authorization<N, S>,
    client: SocketAddr,
    tls: Option<ServerTls>,
    network_holds: F,
    suffix_holds: G,
    contains: spec_fn(N, IpAddr) -> bool,
    ends_in: spec_fn(S, Seq<char>) -> bool,
    r: bool,
)
    requires
        matches_networks(network_holds, contains),
        matches_suffixes(suffix_holds, ends_in),
        call_ensures(
            is_authorized::<N, S, F, G>,
            (&authz, client, &tls, &network_holds, &suffix_holds),
            r,
        ),
    ensures
        ({
            let ip = match client {
                SocketAddr::V4(addr) => IpAddr::V4(addr.ip),
                SocketAddr::V6(addr) => IpAddr::V6(addr.ip),
            };
            let inside = exists|i: int|
                0 <= i < authz.networks@.len() && contains(#[trigger] authz.networks@[i], ip);
            &&& !inside ==> !r
            &&& inside ==> match authz.authentication {
                Authentication::Unauthenticated => r,
                Authentication::TlsUnauthenticated => r <==> tls is Some && tls->0 is Established,
                Authentication::TlsAuthenticated { identities, suffixes } => match tls {
                    None => !r,
                    Some(ServerTls::Passthru) => !r,
                    Some(ServerTls::Established { client_id: None }) => !r,
                    Some(ServerTls::Established { client_id: Some(Id::Uri(uri)) }) => r
                        <==> exists|i: int|
                        0 <= i < identities@.len() && (#[trigger] identities@[i])@ == uri@,
                    Some(ServerTls::Established { client_id: Some(Id::Dns(name)) }) => r <==> (
                    exists|i: int|
                        0 <= i < identities@.len() && (#[trigger] identities@[i])@ == name@) || (
                    exists|i: int|
                        0 <= i < suffixes@.len() && ends_in(#[trigger] suffixes@[i], name@)),
                },
            }
        }),
{
    authz_verdict_is(authz, client, tls, network_holds, suffix_holds, contains, ends_in, r);
}

/// Whether a client's TLS is good enough does not depend on its address: it is
/// for anybody, for any TLS that is terminated here, or for an identity that was
/// presented over such a TLS and is listed or, where it is a name, ends in one of
/// the suffixes.
pub proof fn tls_is_judged_by_identity<N, S, G: Fn(&S, &str) -> bool>(
    authz: Authorization<N, S>,
    tls: Option<ServerTls>,
    suffix_holds: G,
    ends_in: spec_fn(S, Seq<char>) -> bool,
    r: bool,
)
    requires
        matches_suffixes(suffix_holds, ends_in),
        call_ensures(is_tls_authorized::<N, S, G>, (&tls, &authz, &suffix_holds), r),
    ensures
        match authz.authentication {
            Authentication::Unauthenticated => r,
            Authentication::TlsUnauthenticated => r <==> tls is Some && tls->0 is Established,
            Authentication::TlsAuthenticated { identities, suffixes } => match tls {
                None => !r,
                Some(ServerTls::Passthru) => !r,
                Some(ServerTls::Established { client_id: None }) => !r,
                Some(ServerTls::Established { client_id: Some(Id::Uri(uri)) }) => r <==> exists|
                    i: int,
                |
                    0 <= i < identities@.len() && (#[trigger] identities@[i])@ == uri@,
                Some(ServerTls::Established { client_id: Some(Id::Dns(name)) }) => r <==> (exists|
                    i: int,
                |
                    0 <= i < identities@.len() && (#[trigger] identities@[i])@ == name@) || (exists|
                    i: int,
                |
                    0 <= i < suffixes@.len() && ends_in(#[trigger] suffixes@[i], name@)),
            },
        },
{
    tls_verdict_is(tls, authz, suffix_holds, ends_in, r);
}

/// What a verdict on a connection has to be: where the policy is HTTP/1, HTTP/2
/// or gRPC, the client is let in exactly where some authorization of some rule
/// of some route lets it in; where the protocol is detected, opaque or TLS,
/// exactly where some authorization of the connection's list does.
pub open spec fn some_authorization_lets_in<N, S>(
    protocol: Protocol<N, S>,
    client: SocketAddr,
    tls: Option<ServerTls>,
    contains: spec_fn(N, IpAddr) -> bool,
    ends_in: spec_fn(S, Seq<char>) -> bool,
) -> bool {
    match protocol {
        Protocol::Detect { http, tcp_authorizations } => exists|i: int|
            0 <= i < tcp_authorizations@.len() && lets_in(
                #[trigger] tcp_authorizations@[i],
                client,
                tls,
                contains,
                ends_in,
            ),
        Protocol::Opaque(authorizations) => exists|i: int|
            0 <= i < authorizations@.len() && lets_in(
                #[trigger] authorizations@[i],
                client,
                tls,
                contains,
                ends_in,
            ),
        Protocol::Tls(authorizations) => exists|i: int|
            0 <= i < authorizations@.len() && lets_in(
                #[trigger] authorizations@[i],
                client,
                tls,
                contains,
                ends_in,
            ),
        Protocol::Http1(routes) => exists|i: int, j: int, k: int|
            0 <= i < routes@.len() && 0 <= j < routes@[i].rules@.len() && 0 <= k
                < routes@[i].rules@[j].authorizations@.len() && lets_in(
                #[trigger] routes@[i].rules@[j].authorizations@[k],
                client,
                tls,
                contains,
                ends_in,
            ),
        Protocol::Http2(routes) => exists|i: int, j: int, k: int|
            0 <= i < routes@.len() && 0 <= j < routes@[i].rules@.len() && 0 <= k
                < routes@[i].rules@[j].authorizations@.len() && lets_in(
                #[trigger] routes@[i].rules@[j].authorizations@[k],
                client,
                tls,
                contains,
                ends_in,
            ),
        Protocol::Grpc(routes) => exists|i: int, j: int, k: int|
            0 <= i < routes@.len() && 0 <= j < routes@[i].rules@.len() && 0 <= k
                < routes@[i].rules@[j].authorizations@.len() && lets_in(
                #[trigger] routes@[i].rules@[j].authorizations@[k],
                client,
                tls,
                contains,
                ends_in,
            ),
    }
}

proof fn connection_verdict_is<N, S, L, F: Fn(&N, IpAddr) -> bool, G: Fn(&S, &str) -> bool>(
    policy: ServerPolicy<N, S, L>,
    client: SocketAddr,
    tls: Option<ServerTls>,
    network_holds: F,
    suffix_holds: G,
    contains: spec_fn(N, IpAddr) -> bool,
    ends_in: spec_fn(S, Seq<char>) -> bool,
    r: bool,
)
    requires
        matches_networks(network_holds, contains),
        matches_suffixes(suffix_holds, ends_in),
        connection_says(policy, client, tls, network_holds, suffix_holds, r),
    ensures
        r == some_authorization_lets_in(policy.protocol, client, tls, contains, ends_in),
{
    match policy.protocol {
        Protocol::Detect { http, tcp_authorizations } => {
            any_verdict_is(
                tcp_authorizations@,
                client,
                tls,
                network_holds,
                suffix_holds,
                contains,
                ends_in,
                r,
            );
        },
        Protocol::Opaque(authorizations) => {
            any_verdict_is(
                authorizations@,
                client,
                tls,
                network_holds,
                suffix_holds,
                contains,
                ends_in,
                r,
            );
        },
        Protocol::Tls(authorizations) => {
            any_verdict_is(
                authorizations@,
                client,
                tls,
                network_holds,
                suffix_holds,
                contains,
                ends_in,
                r,
            );
        },
        Protocol::Http1(routes) => {
            routes_verdict_is(
                routes@,
                client,
                tls,
                network_holds,
                suffix_holds,
                contains,
                ends_in,
                r,
            );
        },
        Protocol::Http2(routes) => {
            routes_verdict_is(
                routes@,
                client,
                tls,
                network_holds,
                suffix_holds,
                contains,
                ends_in,
                r,
            );
        },
        Protocol::Grpc(routes) => {
            routes_verdict_is(
                routes@,
                client,
                tls,
                network_holds,
                suffix_holds,
                contains,
                ends_in,
                r,
            );
        },
    }
}

/// A connection is let in exactly where the policy has an authorization that
/// lets the client in: for HTTP/1, HTTP/2 and gRPC alike in some rule of some
/// route, for a detected, an opaque and a TLS protocol in the list of the
/// connection.
pub proof fn a_connection_needs_an_authorization<
    N,
    S,
    L,
    F: Fn(&N, IpAddr) -> bool,
    G: Fn(&S, &str) -> bool,
>(
    policy: ServerPolicy<N, S, L>,
    client: SocketAddr,
    tls: Option<ServerTls>,
    network_holds: F,
    suffix_holds: G,
    contains: spec_fn(N, IpAddr) -> bool,
    ends_in: spec_fn(S, Seq<char>) -> bool,
    r: bool,
)
    requires
        matches_networks(network_holds, contains),
        matches_suffixes(suffix_holds, ends_in),
        call_ensures(
            connection_verdict::<N, S, L, F, G>,
            (&policy, client, &tls, &network_holds, &suffix_holds),
            r,
        ),
    ensures
        match policy.protocol {
            Protocol::Detect { http, tcp_authorizations } => r <==> exists|i: int|
                0 <= i < tcp_authorizations@.len() && lets_in(
                    #[trigger] tcp_authorizations@[i],
                    client,
                    tls,
                    contains,
                    ends_in,
                ),
            Protocol::Opaque(authorizations) => r <==> exists|i: int|
                0 <= i < authorizations@.len() && lets_in(
                    #[trigger] authorizations@[i],
                    client,
                    tls,
                    contains,
                    ends_in,
                ),
            Protocol::Tls(authorizations) => r <==> exists|i: int|
                0 <= i < authorizations@.len() && lets_in(
                    #[trigger] authorizations@[i],
                    client,
                    tls,
                    contains,
                    ends_in,
                ),
            Protocol::Http1(routes) => r <==> exists|i: int, j: int, k: int|
                0 <= i < routes@.len() && 0 <= j < routes@[i].rules@.len() && 0 <= k
                    < routes@[i].rules@[j].authorizations@.len() && lets_in(
                    #[trigger] routes@[i].rules@[j].authorizations@[k],
                    client,
                    tls,
                    contains,
                    ends_in,
                ),
            Protocol::Http2(routes) => r <==> exists|i: int, j: int, k: int|
                0 <= i < routes@.len() && 0 <= j < routes@[i].rules@.len() && 0 <= k
                    < routes@[i].rules@[j].authorizations@.len() && lets_in(
                    #[trigger] routes@[i].rules@[j].authorizations@[k],
                    client,
                    tls,
                    contains,
                    ends_in,
                ),
            Protocol::Grpc(routes) => r <==> exists|i: int, j: int, k: int|
                0 <= i < routes@.len() && 0 <= j < routes@[i].rules@.len() && 0 <= k
                    < routes@[i].rules@[j].authorizations@.len() && lets_in(
                    #[trigger] routes@[i].rules@[j].authorizations@[k],
                    client,
                    tls,
                    contains,
                    ends_in,
                ),
        },
{
    connection_verdict_is(
        policy,
        client,
        tls,
        network_holds,
        suffix_holds,
        contains,
        ends_in,
        r,
    );
}

/// What it takes for an authorization to let a client in, spelled out: one of
/// its networks holds the client's address, and it asks for nobody in
/// particular, for any TLS that is terminated here, or for an identity that the
/// client presented over such a TLS and that is listed or, where it is a name,
/// ends in one of the suffixes.
pub proof fn an_authorization_is_network_and_identity<N, S>(
    authz: Authorization<N, S>,
    client: SocketAddr,
    tls: Option<ServerTls>,
    contains: spec_fn(N, IpAddr) -> bool,
    ends_in: spec_fn(S, Seq<char>) -> bool,
)
    ensures
        ({
            let ip = match client {
                SocketAddr::V4(addr) => IpAddr::V4(addr.ip),
                SocketAddr::V6(addr) => IpAddr::V6(addr.ip),
            };
            let inside = exists|i: int|
                0 <= i < authz.networks@.len() && contains(#[trigger] authz.networks@[i], ip);
            lets_in(authz, client, tls, contains, ends_in) <==> inside && match authz.authentication {
                Authentication::Unauthenticated => true,
                Authentication::TlsUnauthenticated => tls is Some && tls->0 is Established,
                Authentication::TlsAuthenticated { identities, suffixes } => {
                    &&& tls is Some
                    &&& tls->0 is Established
                    &&& tls->0->client_id is Some
                    &&& {
                        let id = tls->0->client_id->0;
                        let name = match id {
                            Id::Uri(text) => text@,
                            Id::Dns(text) => text@,
                        };
                        ||| exists|i: int|
                            0 <= i < identities@.len() && (#[trigger] identities@[i])@ == name
                        ||| id is Dns && exists|i: int|
                            0 <= i < suffixes@.len() && ends_in(#[trigger] suffixes@[i], name)
                    }
                },
            }
        }),
{
}

/// The policy of a destination lets a connection in as its server's policy does.
pub proof fn a_destination_is_its_servers<
    N,
    S,
    L,
    F: Fn(&N, IpAddr) -> bool,
    G: Fn(&S, &str) -> bool,
>(
    policy: AllowPolicy<N, S, L>,
    client: SocketAddr,
    tls: Option<ServerTls>,
    network_holds: F,
    suffix_holds: G,
    contains: spec_fn(N, IpAddr) -> bool,
    ends_in: spec_fn(S, Seq<char>) -> bool,
    r: bool,
    server: bool,
)
    requires
        matches_networks(network_holds, contains),
        matches_suffixes(suffix_holds, ends_in),
        call_ensures(
            AllowPolicy::<N, S, L>::admits::<F, G>,
            (&policy, client, &tls, &network_holds, &suffix_holds),
            r,
        ),
        call_ensures(
            connection_verdict::<N, S, L, F, G>,
            (&policy.server, client, &tls, &network_holds, &suffix_holds),
            server,
        ),
    ensures
        r == server,
{
    connection_verdict_is(
        policy.server,
        client,
        tls,
        network_holds,
        suffix_holds,
        contains,
        ends_in,
        r,
    );
    connection_verdict_is(
        policy.server,
        client,
        tls,
        network_holds,
        suffix_holds,
        contains,
        ends_in,
        server,
    );
}

/// A client that a text identifies is judged as one that presented, over TLS
/// that was terminated here, the identity that `parse` makes of the text; where
/// there is no text or it is empty, as one that presented none. So a text that
/// is nobody's still passes where any TLS does.
pub proof fn an_identified_client_is_judged_over_tls<
    N,
    S,
    L,
    F: Fn(&N, IpAddr) -> bool,
    G: Fn(&S, &str) -> bool,
    P: Fn(&str) -> Option<Id>,
>(
    policy: ServerPolicy<N, S, L>,
    client: SocketAddr,
    identity: Option<&str>,
    parse: P,
    network_holds: F,
    suffix_holds: G,
    contains: spec_fn(N, IpAddr) -> bool,
    ends_in: spec_fn(S, Seq<char>) -> bool,
    r: bool,
) -> (client_id: Option<Id>)
    requires
        matches_networks(network_holds, contains),
        matches_suffixes(suffix_holds, ends_in),
        call_ensures(
            identified_verdict::<N, S, L, F, G, P>,
            (&policy, client, identity, &parse, &network_holds, &suffix_holds),
            r,
        ),
    ensures
        identity is None || identity->0@.len() == 0 ==> client_id is None,
        identity is Some && identity->0@.len() > 0 ==> parse.ensures((identity->0,), client_id),
        r == some_authorization_lets_in(
            policy.protocol,
            client,
            Some(ServerTls::Established { client_id }),
            contains,
            ends_in,
        ),
{
    let client_id = choose|client_id: Option<Id>|
        #[trigger] identified(identity, parse, client_id) && connection_says(
            policy,
            client,
            Some(ServerTls::Established { client_id }),
            network_holds,
            suffix_holds,
            r,
        );
    connection_verdict_is(
        policy,
        client,
        Some(ServerTls::Established { client_id }),
        network_holds,
        suffix_holds,
        contains,
        ends_in,
        r,
    );
    client_id
}

/// A connection to a destination is judged by the policy that the store gives
/// for that destination, and by no other.
pub proof fn a_destination_is_judged_by_its_policy<
    N,
    S,
    L,
    T: GetPolicy<N, S, L>,
    F: Fn(&N, IpAddr) -> bool,
    G: Fn(&S, &str) -> bool,
    P: Fn(&str) -> Option<Id>,
>(
    store: T,
    destination: SocketAddr,
    client: SocketAddr,
    identity: Option<&str>,
    parse: P,
    network_holds: F,
    suffix_holds: G,
    contains: spec_fn(N, IpAddr) -> bool,
    ends_in: spec_fn(S, Seq<char>) -> bool,
    r: bool,
) -> (judged: (AllowPolicy<N, S, L>, Option<Id>))
    requires
        matches_networks(network_holds, contains),
        matches_suffixes(suffix_holds, ends_in),
        call_ensures(
            dmesh_connection_verdict::<N, S, L, T, F, G, P>,
            (&store, destination, client, identity, &parse, &network_holds, &suffix_holds),
            r,
        ),
    ensures
        call_ensures(T::get_policy, (&store, destination), judged.0),
        identity is None || identity->0@.len() == 0 ==> judged.1 is None,
        identity is Some && identity->0@.len() > 0 ==> parse.ensures((identity->0,), judged.1),
        r == some_authorization_lets_in(
            judged.0.server.protocol,
            client,
            Some(ServerTls::Established { client_id: judged.1 }),
            contains,
            ends_in,
        ),
{
    let policy = choose|policy: AllowPolicy<N, S, L>| #[trigger]
        call_ensures(T::get_policy, (&store, destination), policy) && dmesh_connection_says(
            policy.server,
            client,
            identity,
            parse,
            network_holds,
            suffix_holds,
            r,
        );
    let client_id = choose|client_id: Option<Id>|
        #[trigger] identified(identity, parse, client_id) && connection_says(
            policy.server,
            client,
            Some(ServerTls::Established { client_id }),
            network_holds,
            suffix_holds,
            r,
        );
    connection_verdict_is(
        policy.server,
        client,
        Some(ServerTls::Established { client_id }),
        network_holds,
        suffix_holds,
        contains,
        ends_in,
        r,
    );
    (policy, client_id)
}

/// A text that is there and not empty is parsed, and nothing else identifies a
/// client.
pub proof fn an_empty_text_is_nobody<P: Fn(&str) -> Option<Id>>(
    identity: Option<&str>,
    parse: P,
    r: Option<Id>,
)
    requires
        call_ensures(client_identity::<P>, (identity, &parse), r),
    ensures
        identity is None || identity->0@.len() == 0 ==> r is None,
        identity is Some && identity->0@.len() > 0 ==> parse.ensures((identity->0,), r),
{
}

/// HTTP and gRPC policies have the routes that they are configured with, and a
/// policy that detects has its HTTP routes; an opaque and a TLS policy have
/// none.
pub proof fn a_policy_has_its_own_routes<'a, N, S, L>(
    policy: &'a ServerPolicy<N, S, L>,
    r: Option<Routes<'a, N, S>>,
)
    requires
        call_ensures(ServerPolicy::<N, S, L>::routes, (policy,), r),
    ensures
        match policy.protocol {
            Protocol::Detect { http, tcp_authorizations } => r matches Some(Routes::Http(routes))
                && *routes == http,
            Protocol::Http1(http) => r matches Some(Routes::Http(routes)) && *routes == http,
            Protocol::Http2(http) => r matches Some(Routes::Http(routes)) && *routes == http,
            Protocol::Grpc(grpc) => r matches Some(Routes::Grpc(routes)) && *routes == grpc,
            Protocol::Opaque(_) => r is None,
            Protocol::Tls(_) => r is None,
        },
{
}

/// A default policy that allows is the policy it allows; one that denies lets
/// no client in, and is called so.
pub proof fn a_denying_default_lets_nobody_in<
    N,
    S,
    L,
    F: Fn(&N, IpAddr) -> bool,
    G: Fn(&S, &str) -> bool,
>(
    default: DefaultPolicy<N, S, L>,
    unlimited: L,
    policy: ServerPolicy<N, S, L>,
    client: SocketAddr,
    tls: Option<ServerTls>,
    network_holds: F,
    suffix_holds: G,
    r: bool,
)
    requires
        call_ensures(DefaultPolicy::<N, S, L>::into_policy, (default, unlimited), policy),
        call_ensures(
            connection_verdict::<N, S, L, F, G>,
            (&policy, client, &tls, &network_holds, &suffix_holds),
            r,
        ),
    ensures
        default is Allow ==> policy == default->Allow_0,
        default is Deny ==> !r && (policy.meta matches Meta::Default { name } && name@ == "deny"@)
            && policy.local_rate_limit == unlimited,
{
}

/// A limit on all requests is of the scope `total`, and any other of the scope
/// `identity`; a rate-limited request is labelled with it, with the limit's own
/// name, and with its server.
pub proof fn a_limit_is_labelled_by_its_scope<N, S, L>(
    policy: AllowPolicy<N, S, L>,
    error: RateLimitError,
    rate_limit: Option<Meta>,
)
    ensures
        forall|r: &'static str| #[trigger]
            call_ensures(RateLimitError::scope, (&error,), r) ==> match error {
                RateLimitError::Total => r@ == "total"@,
                RateLimitError::PerIdentity => r@ == "identity"@,
                RateLimitError::Override => r@ == "identity"@,
            },
        forall|r: HTTPLocalRateLimitLabels, scope: &'static str, server: ServerLabel|
            #![trigger
                call_ensures(AllowPolicy::<N, S, L>::ratelimit_label, (&policy, &error, rate_limit), r),
                call_ensures(RateLimitError::scope, (&error,), scope),
                call_ensures(AllowPolicy::<N, S, L>::server_label, (&policy,), server),
            ]
            call_ensures(
                AllowPolicy::<N, S, L>::ratelimit_label,
                (&policy, &error, rate_limit),
                r,
            ) && call_ensures(RateLimitError::scope, (&error,), scope) && call_ensures(
                AllowPolicy::<N, S, L>::server_label,
                (&policy,),
                server,
            ) ==> r.scope@ == scope@ && r.server == server && r.rate_limit == rate_limit,
{
}

/// A server is labelled with the name of its policy and with the port of the
/// destination, also on the permit of an authorized connection, which names its
/// authorization too.
pub proof fn a_server_is_labelled_by_policy_and_port<N, S, L>(
    policy: AllowPolicy<N, S, L>,
    authz: Authorization<N, S>,
)
    ensures
        forall|r: ServerLabel| #[trigger]
            call_ensures(AllowPolicy::<N, S, L>::server_label, (&policy,), r) ==> r.meta
                == policy.server.meta && r.port == match policy.dst {
                SocketAddr::V4(addr) => addr.port,
                SocketAddr::V6(addr) => addr.port,
            },
        forall|r: ServerPermit<'_, N, S>| #[trigger]
            call_ensures(
                ServerPermit::<'_, N, S>::new::<L>,
                (policy.dst, &policy.server, &authz),
                r,
            ) ==> {
                &&& r.dst == policy.dst
                &&& *r.protocol == policy.server.protocol
                &&& r.labels.authz == authz.meta
                &&& r.labels.server.meta == policy.server.meta
                &&& r.labels.server.port == match policy.dst {
                    SocketAddr::V4(addr) => addr.port,
                    SocketAddr::V6(addr) => addr.port,
                }
            },
{
}

/// Without discovery no port of the proxy's own listeners has a policy of its
/// own, and what the workloads' stores are built from is what was configured.
pub proof fn nothing_is_discovered_for_own_ports<D: Clone, P: Clone>(
    config: PolicyConfig<D, P>,
    r: (PolicyConfig<D, P>, PolicyConfig<D, P>),
)
    requires
        call_ensures(
            PolicyConfig::<D, P>::disable_inbound_policy_discovery,
            (config,),
            r,
        ),
    ensures
        r.1 == config,
        !(r.0 is Discover),
        config is Discover ==> r.0->Fixed_ports@.len() == 0 && cloned(
            config->Discover_default,
            r.0->Fixed_default,
        ) && r.0->Fixed_cache_max_idle_age == config->Discover_cache_max_idle_age
            && r.0->Fixed_opaque_ports@ == config->Discover_opaque_ports@,
        config is Fixed ==> {
            let (own, was) = (r.0->Fixed_ports@, config->Fixed_ports@);
            &&& own.len() == was.len()
            &&& forall|i: int|
                0 <= i < was.len() ==> (#[trigger] own[i]).0 == was[i].0 && cloned(
                    was[i].1,
                    own[i].1,
                )
            &&& cloned(config->Fixed_default, r.0->Fixed_default)
            &&& r.0->Fixed_cache_max_idle_age == config->Fixed_cache_max_idle_age
            &&& r.0->Fixed_opaque_ports@ == config->Fixed_opaque_ports@
        },
{
}

/// An identity reads as its text, of whichever kind it is, and the policy of a
/// destination is of that destination and has its server's name and routes.
pub proof fn a_destination_has_its_own_policy<N, S, L>(id: Id, policy: AllowPolicy<N, S, L>)
    ensures
        forall|r: &str| #[trigger]
            call_ensures(Id::to_str, (&id,), r) ==> match id {
                Id::Uri(text) => r@ == text@,
                Id::Dns(text) => r@ == text@,
            },
        forall|r: SocketAddr| #[trigger]
            call_ensures(AllowPolicy::<N, S, L>::dst_addr, (&policy,), r) ==> r == policy.dst,
        forall|r: Meta| #[trigger]
            call_ensures(AllowPolicy::<N, S, L>::meta, (&policy,), r) ==> r == policy.server.meta,
{
}

/// The routes of a destination are those of its server's policy.
pub proof fn a_destination_has_its_servers_routes<'a, N, S, L>(
    policy: &'a AllowPolicy<N, S, L>,
    r: Option<Routes<'a, N, S>>,
)
    requires
        call_ensures(AllowPolicy::<N, S, L>::routes, (policy,), r),
    ensures
        match policy.server.protocol {
            Protocol::Detect { http, tcp_authorizations } => r matches Some(Routes::Http(routes))
                && *routes == http,
            Protocol::Http1(http) => r matches Some(Routes::Http(routes)) && *routes == http,
            Protocol::Http2(http) => r matches Some(Routes::Http(routes)) && *routes == http,
            Protocol::Grpc(grpc) => r matches Some(Routes::Grpc(routes)) && *routes == grpc,
            Protocol::Opaque(_) => r is None,
            Protocol::Tls(_) => r is None,
        },
{
}

/// A policy that is known is allowed as it is.
pub proof fn a_known_policy_is_allowed<N, S, L>(
    policy: ServerPolicy<N, S, L>,
    unlimited: L,
    default: DefaultPolicy<N, S, L>,
    r: ServerPolicy<N, S, L>,
)
    requires
        call_ensures(
            <DefaultPolicy<N, S, L> as From<ServerPolicy<N, S, L>>>::from,
            (policy,),
            default,
        ),
        call_ensures(DefaultPolicy::<N, S, L>::into_policy, (default, unlimited), r),
    ensures
        r == policy,
{
}

/// A copy of a name is the same name.
pub proof fn a_name_is_copied_whole(meta: Meta, r: Meta)
    requires
        call_ensures(Meta::clone, (&meta,), r),
    ensures
        match meta {
            Meta::Default { name } => r matches Meta::Default { name: copy } && copy@ == name@,
            Meta::Resource { group, kind, name } => r matches Meta::Resource {
                group: g,
                kind: k,
                name: n,
            } && g@ == group@ && k@ == kind@ && n@ == name@,
        },
{
}

} // verus!
