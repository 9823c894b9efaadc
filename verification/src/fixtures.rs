//! The policies that a stand-in controller serves.
//!
//! The outbound policy is a default one in which every backend is replaced by
//! one address. `Q` is what a backend holds besides.
use vstd::prelude::*;

use rustls_pki_types::pem::PemObject;
use rustls_pki_types::CertificateDer;

use crate::net::{SocketAddr, SocketAddrV4};
use crate::router::config::{number_of, number_upto, parse_u32};

verus! {

/// The endpoint is a meshed peer: it is dialed at its inbound port with TLS.
#[derive(Debug)]
pub struct Tagged {
    pub identity: String,
    pub inbound_port: u32,
}

impl Clone for Tagged {
    fn clone(&self) -> (r: Self)
        ensures
            r == *self,
    {
        Tagged { identity: self.identity.clone(), inbound_port: self.inbound_port }
    }
}

/// Where a backend forwards to.
#[derive(Debug)]
pub struct Forward {
    pub addr: SocketAddr,
    pub weight: u32,
    pub tagged: Option<Tagged>,
}

/// What a backend does.
#[derive(Debug)]
pub enum BackendKind {
    Forward(Forward),
    Other,
}

#[derive(Debug)]
pub struct Backend<Q> {
    pub kind: Option<BackendKind>,
    pub rest: Q,
}

/// How a rule picks among backends.
#[derive(Debug)]
pub enum Distribution<Q> {
    FirstAvailable(Vec<Option<Backend<Q>>>),
    Other,
}

#[derive(Debug)]
pub struct Rule<Q> {
    pub backends: Option<Distribution<Q>>,
}

#[derive(Debug)]
pub struct Route<Q> {
    pub rules: Vec<Rule<Q>>,
}

/// The routes by what is detected.
#[derive(Debug)]
pub struct Detect<Q> {
    pub http1: Option<Vec<Route<Q>>>,
    pub http2: Option<Vec<Route<Q>>>,
    pub opaque: Option<Vec<Route<Q>>>,
}

#[derive(Debug)]
pub enum ProxyProtocol<Q> {
    Detect(Detect<Q>),
    Opaque(Vec<Route<Q>>),
    Other,
}

/// Whether endpoints are meshed peers: where both an identity and a port that
/// is a number are given.
pub fn tagged(identity: Option<&str>, port: Option<&str>) -> (r: Option<Tagged>)
    ensures
        r is Some <==> identity is Some && port is Some && number_upto(
            port->0@,
            u32::MAX as nat,
        ) is Some,
        r matches Some(tagged) ==> tagged.identity@ == identity->0@ && number_upto(
            port->0@,
            u32::MAX as nat,
        ) == Some(tagged.inbound_port as nat),
{
    match (identity, port) {
        (Some(identity), Some(port)) => match parse_u32(port) {
            Ok(inbound_port) => Some(Tagged { identity: identity.to_owned(), inbound_port }),
            Err(_) => None,
        },
        _ => None,
    }
}

/// The target of a flow, as far as it is one of these.
#[derive(Clone, Copy, Debug, PartialEq, Eq, Structural)]
pub enum Target {
    V4 { ip: u32, port: u32 },
    V6,
    /// An authority, or no address.
    Other,
}

/// Where a flow is forwarded to besides the configured backend: its own
/// destination, where that is echoed and is an IPv4 address.
pub fn target_backend(echo: bool, target: Target) -> (r: Option<SocketAddr>)
    ensures
        r == match target {
            Target::V4 { ip, port } => if echo {
                Some(SocketAddr::V4(SocketAddrV4 { ip, port: port as u16 }))
            } else {
                None
            },
            _ => None,
        },
{
    if !echo {
        return None;
    }
    match target {
        Target::V4 { ip, port } => Some(
            SocketAddr::V4(
                SocketAddrV4 {
                    ip,
                    port: #[verifier::truncate]
                    (port as u16),
                },
            ),
        ),
        Target::V6 => None,
        Target::Other => None,
    }
}

/// The kind of a backend that forwards to an address.
pub open spec fn forwards_to(kind: Option<BackendKind>, addr: SocketAddr, tagged: Option<Tagged>) -> bool {
    kind matches Some(BackendKind::Forward(forward)) && forward == (Forward {
        addr,
        weight: 1,
        tagged,
    })
}

/// A backend that is there forwards; what it holds besides stays.
pub open spec fn backend_forwarded<Q>(
    before: Option<Backend<Q>>,
    after: Option<Backend<Q>>,
    addr: SocketAddr,
    tagged: Option<Tagged>,
) -> bool {
    match before {
        None => after is None,
        Some(backend) => after matches Some(forwarding) && forwarding.rest == backend.rest
            && forwards_to(forwarding.kind, addr, tagged),
    }
}

/// Every backend of a rule that takes the first available one forwards; other
/// rules stay.
pub open spec fn rule_forwarded<Q>(
    before: Rule<Q>,
    after: Rule<Q>,
    addr: SocketAddr,
    tagged: Option<Tagged>,
) -> bool {
    match before.backends {
        Some(Distribution::FirstAvailable(list)) => {
            &&& after.backends matches Some(Distribution::FirstAvailable(forwarding))
            &&& forwarding@.len() == list@.len()
            &&& forall|i: int|
                0 <= i < list@.len() ==> backend_forwarded(
                    list@[i],
                    #[trigger] forwarding@[i],
                    addr,
                    tagged,
                )
        },
        _ => after == before,
    }
}

pub open spec fn route_forwarded<Q>(
    before: Route<Q>,
    after: Route<Q>,
    addr: SocketAddr,
    tagged: Option<Tagged>,
) -> bool {
    &&& after.rules@.len() == before.rules@.len()
    &&& forall|i: int|
        0 <= i < before.rules@.len() ==> rule_forwarded(
            before.rules@[i],
            #[trigger] after.rules@[i],
            addr,
            tagged,
        )
}

pub open spec fn routes_forwarded<Q>(
    before: Option<Vec<Route<Q>>>,
    after: Option<Vec<Route<Q>>>,
    addr: SocketAddr,
    tagged: Option<Tagged>,
) -> bool {
    match before {
        None => after is None,
        Some(routes) => {
            &&& after matches Some(forwarding)
            &&& forwarding@.len() == routes@.len()
            &&& forall|i: int|
                0 <= i < routes@.len() ==> route_forwarded(
                    routes@[i],
                    #[trigger] forwarding@[i],
                    addr,
                    tagged,
                )
        },
    }
}

fn copy_tagged(tagged: &Option<Tagged>) -> (r: Option<Tagged>)
    ensures
        r == *tagged,
{
    match tagged {
        Some(tagged) => Some(tagged.clone()),
        None => None,
    }
}

/// Let a backend forward to `addr`.
pub fn replace_backend<Q>(backend: &mut Option<Backend<Q>>, addr: SocketAddr, tagged: &Option<Tagged>)
    ensures
        backend_forwarded(*old(backend), *final(backend), addr, *tagged),
{
    match backend {
        Some(backend) => {
            backend.kind = Some(
                BackendKind::Forward(Forward { addr, weight: 1, tagged: copy_tagged(tagged) }),
            );
        },
        None => {},
    }
}

fn replace_all<Q>(list: &mut Vec<Option<Backend<Q>>>, addr: SocketAddr, tagged: &Option<Tagged>)
    ensures
        final(list)@.len() == old(list)@.len(),
        forall|i: int|
            0 <= i < old(list)@.len() ==> backend_forwarded(
                old(list)@[i],
                #[trigger] final(list)@[i],
                addr,
                *tagged,
            ),
{
    let mut i: usize = 0;
    while i < list.len()
        invariant
            i <= list@.len(),
            list@.len() == old(list)@.len(),
            forall|j: int| i <= j < list@.len() ==> list@[j] == old(list)@[j],
            forall|j: int|
                0 <= j < i ==> backend_forwarded(
                    old(list)@[j],
                    #[trigger] list@[j],
                    addr,
                    *tagged,
                ),
        decreases list@.len() - i,
    {
        replace_backend(&mut list[i], addr, tagged);
        i = i + 1;
    }
}

fn replace_rule<Q>(rule: &mut Rule<Q>, addr: SocketAddr, tagged: &Option<Tagged>)
    ensures
        rule_forwarded(*old(rule), *final(rule), addr, *tagged),
{
    match &mut rule.backends {
        Some(Distribution::FirstAvailable(list)) => {
            replace_all(list, addr, tagged);
        },
        _ => {},
    }
}

/// Let every backend of a route forward to `addr`.
pub fn replace_route_backends<Q>(route: &mut Route<Q>, addr: SocketAddr, tagged: &Option<Tagged>)
    ensures
        route_forwarded(*old(route), *final(route), addr, *tagged),
{
    let mut i: usize = 0;
    while i < route.rules.len()
        invariant
            i <= route.rules@.len(),
            route.rules@.len() == old(route).rules@.len(),
            forall|j: int| i <= j < route.rules@.len() ==> route.rules@[j] == old(route).rules@[j],
            forall|j: int|
                0 <= j < i ==> rule_forwarded(
                    old(route).rules@[j],
                    #[trigger] route.rules@[j],
                    addr,
                    *tagged,
                ),
        decreases route.rules@.len() - i,
    {
        replace_rule(&mut route.rules[i], addr, tagged);
        i = i + 1;
    }
}

fn replace_routes<Q>(routes: Option<Vec<Route<Q>>>, addr: SocketAddr, tagged: &Option<Tagged>) -> (r:
    Option<Vec<Route<Q>>>)
    ensures
        routes_forwarded(routes, r, addr, *tagged),
{
    let mut forwarding: Vec<Route<Q>> = match routes {
        None => {
            return None;
        },
        Some(routes) => routes,
    };
    let ghost before = forwarding@;
    let mut i: usize = 0;
    while i < forwarding.len()
        invariant
            i <= forwarding@.len(),
            forwarding@.len() == before.len(),
            forall|j: int| i <= j < forwarding@.len() ==> forwarding@[j] == before[j],
            forall|j: int|
                0 <= j < i ==> route_forwarded(
                    before[j],
                    #[trigger] forwarding@[j],
                    addr,
                    *tagged,
                ),
        decreases forwarding@.len() - i,
    {
        replace_route_backends(&mut forwarding[i], addr, tagged);
        i = i + 1;
    }
    Some(forwarding)
}

/// A policy that detects protocols forwards whatever it detects. Where only
/// opaque forwarding is wanted, the opaque routes are all that is left of it.
pub open spec fn policy_forwarded<Q>(
    before: Option<ProxyProtocol<Q>>,
    after: Option<ProxyProtocol<Q>>,
    addr: SocketAddr,
    tagged: Option<Tagged>,
    opaque_only: bool,
) -> bool {
    match before {
        Some(ProxyProtocol::Detect(detect)) => if opaque_only {
            &&& after matches Some(ProxyProtocol::Opaque(routes))
            &&& match detect.opaque {
                None => routes@.len() == 0,
                Some(_) => routes_forwarded(detect.opaque, Some(routes), addr, tagged),
            }
        } else {
            &&& after matches Some(ProxyProtocol::Detect(forwarding))
            &&& routes_forwarded(detect.http1, forwarding.http1, addr, tagged)
            &&& routes_forwarded(detect.http2, forwarding.http2, addr, tagged)
            &&& routes_forwarded(detect.opaque, forwarding.opaque, addr, tagged)
        },
        _ => after == if opaque_only {
            None
        } else {
            before
        },
    }
}

/// The policy in which every backend forwards to `addr`.
pub fn forward_policy<Q>(
    protocol: Option<ProxyProtocol<Q>>,
    addr: SocketAddr,
    tagged: &Option<Tagged>,
    opaque_only: bool,
) -> (r: Option<ProxyProtocol<Q>>)
    ensures
        policy_forwarded(protocol, r, addr, *tagged, opaque_only),
{
    match protocol {
        Some(ProxyProtocol::Detect(detect)) => {
            let http1 = replace_routes(detect.http1, addr, tagged);
            let http2 = replace_routes(detect.http2, addr, tagged);
            let opaque = replace_routes(detect.opaque, addr, tagged);
            if opaque_only {
                Some(
                    ProxyProtocol::Opaque(
                        match opaque {
                            Some(routes) => routes,
                            None => Vec::new(),
                        },
                    ),
                )
            } else {
                Some(ProxyProtocol::Detect(Detect { http1, http2, opaque }))
            }
        },
        other => {
            if opaque_only {
                None
            } else {
                other
            }
        },
    }
}

/// Who the inbound policy lets in.
#[derive(Debug)]
pub enum InboundFixture {
    Anybody,
    /// Only a client with this identity, over TLS.
    Identity(String),
}

/// Anybody is let in, unless an identity is required.
pub fn inbound_fixture(required: Option<String>) -> (r: InboundFixture)
    ensures
        match required {
            Some(id) => if id@.len() > 0 {
                r matches InboundFixture::Identity(name) && name@ == id@
            } else {
                r is Anybody
            },
            None => r is Anybody,
        },
{
    match required {
        Some(id) => {
            if id.as_str().is_empty() {
                InboundFixture::Anybody
            } else {
                InboundFixture::Identity(id)
            }
        },
        None => InboundFixture::Anybody,
    }
}

/// How long a certificate is valid, in seconds.
pub const CERTIFICATE_LIFETIME: u64 = 86400;

/// What a client that asks for a certificate is answered.
#[derive(Debug)]
pub struct CertifyResponse {
    pub leaf_certificate: Vec<u8>,
    pub intermediate_certificates: Vec<Vec<u8>>,
    /// Seconds since the epoch.
    pub valid_until: u64,
}

/// Why there is no certificate to answer with.
#[derive(Debug)]
pub enum CertifyError {
    /// The text is no PEM, and what is wrong with it.
    Pem(String),
    /// The text holds no certificate.
    Empty,
}

/// The certificates that `CertificateDer::pem_slice_iter` finds in a text, or
/// none where it fails on one of its sections.
pub uninterp spec fn certificates_of(pem: Seq<u8>) -> Option<Seq<Seq<u8>>>;

/// The views of byte strings.
pub open spec fn byte_views(list: Seq<Vec<u8>>) -> Seq<Seq<u8>> {
    list.map_values(|bytes: Vec<u8>| bytes@)
}

/// `CertificateDer::pem_slice_iter`, to its end or its first error: the
/// certificates of the text, in order. What the error says is not stated.
#[verifier::external_body]
fn pem_certificates(pem: &[u8]) -> (r: Result<Vec<Vec<u8>>, String>)
    ensures
        r is Ok <==> certificates_of(pem@) is Some,
        r matches Ok(list) ==> certificates_of(pem@) == Some(byte_views(list@)),
{
    CertificateDer::pem_slice_iter(pem)
        .map(|certificate| certificate.map(|der| der.to_vec()).map_err(|e| e.to_string()))
        .collect()
}

/// The answer that a chain of certificates makes: the first is the leaf, and
/// the others vouch for it.
pub fn answer_with(chain: Vec<Vec<u8>>, now: u64) -> (r: Result<CertifyResponse, CertifyError>)
    requires
        now <= u64::MAX - CERTIFICATE_LIFETIME,
    ensures
        r is Ok <==> chain@.len() > 0,
        r matches Ok(response) ==> {
            &&& response.leaf_certificate == chain@[0]
            &&& response.intermediate_certificates@ == chain@.skip(1)
            &&& response.valid_until == now + CERTIFICATE_LIFETIME
        },
        r matches Err(error) ==> error is Empty,
{
    if chain.len() == 0 {
        return Err(CertifyError::Empty);
    }
    let mut intermediates: Vec<Vec<u8>> = chain;
    let ghost all = intermediates@;
    let leaf: Vec<u8> = intermediates.remove(0);
    assert(intermediates@ =~= all.skip(1));
    Ok(
        CertifyResponse {
            leaf_certificate: leaf,
            intermediate_certificates: intermediates,
            valid_until: now + CERTIFICATE_LIFETIME,
        },
    )
}

/// The answer that the certificates of a PEM text make.
pub fn certify_response(pem: &[u8], now: u64) -> (r: Result<CertifyResponse, CertifyError>)
    requires
        now <= u64::MAX - CERTIFICATE_LIFETIME,
    ensures
        match certificates_of(pem@) {
            None => r matches Err(error) && error is Pem,
            Some(chain) => if chain.len() == 0 {
                r matches Err(error) && error is Empty
            } else {
                &&& r matches Ok(response)
                &&& response.leaf_certificate@ == chain[0]
                &&& byte_views(response.intermediate_certificates@) == chain.skip(1)
                &&& response.valid_until == now + CERTIFICATE_LIFETIME
            },
        },
{
    match pem_certificates(pem) {
        Err(error) => Err(CertifyError::Pem(error)),
        Ok(chain) => {
            proof {
                if chain@.len() > 0 {
                    assert(byte_views(chain@.skip(1)) =~= byte_views(chain@).skip(1));
                }
            }
            answer_with(chain, now)
        },
    }
}

/// Replacing the backends twice is replacing them by the second address: what
/// the first put there is gone.
pub proof fn the_last_replacement_counts<Q>(
    first: Option<Backend<Q>>,
    second: Option<Backend<Q>>,
    third: Option<Backend<Q>>,
    once: SocketAddr,
    twice: SocketAddr,
    tagged: Option<Tagged>,
)
    requires
        backend_forwarded(first, second, once, tagged),
        backend_forwarded(second, third, twice, tagged),
    ensures
        backend_forwarded(first, third, twice, tagged),
{
}

/// Endpoints are meshed peers exactly where an identity is given and a port that
/// is a number of 32 bits.
pub proof fn a_peer_has_identity_and_port(
    identity: Option<&str>,
    port: Option<&str>,
    r: Option<Tagged>,
)
    requires
        call_ensures(tagged, (identity, port), r),
    ensures
        r is Some <==> identity is Some && port is Some && number_of(port->0@) is Some && number_of(
            port->0@,
        )->0 <= 0xffff_ffff,
        r is Some ==> r->0.identity@ == identity->0@ && number_of(port->0@) == Some(
            r->0.inbound_port as nat,
        ),
{
}

/// A flow is forwarded to its own destination exactly where destinations are
/// echoed and it is an address of version 4.
pub proof fn a_destination_is_echoed(echo: bool, target: Target, r: Option<SocketAddr>)
    requires
        call_ensures(target_backend, (echo, target), r),
    ensures
        match target {
            Target::V4 { ip, port } => {
                &&& echo && port <= 0xffff ==> r == Some(
                    SocketAddr::V4(SocketAddrV4 { ip, port: port as u16 }),
                )
                &&& echo ==> r is Some
                &&& !echo ==> r is None
            },
            Target::V6 => r is None,
            Target::Other => r is None,
        },
{
}

/// Every backend that is there forwards to the address alone, with weight one
/// and as the peer that it is; what it holds besides stays, and one that is not
/// there does not come into being.
pub proof fn a_replaced_backend_forwards<Q>(addr: SocketAddr, tagged: Option<Tagged>)
    ensures
        forall|backend: &mut Option<Backend<Q>>| #[trigger]
            call_ensures(replace_backend::<Q>, (backend, addr, &tagged), ()) ==> {
                &&& *backend is None ==> *final(backend) is None
                &&& *backend is Some ==> *final(backend) is Some && final(backend)->0.rest
                    == backend->0.rest && final(backend)->0.kind == Some(
                    BackendKind::Forward(Forward { addr, weight: 1, tagged }),
                )
            },
{
}

/// Every backend of a route's rules forwards, where the rule takes the first
/// available one; the rules and the backends keep their number and order, and
/// any other rule stays as it is.
pub proof fn a_replaced_route_forwards<Q>(addr: SocketAddr, tagged: Option<Tagged>)
    ensures
        forall|route: &mut Route<Q>| #[trigger]
            call_ensures(replace_route_backends::<Q>, (route, addr, &tagged), ()) ==> {
                &&& final(route).rules@.len() == route.rules@.len()
                &&& forall|i: int|
                    #![trigger final(route).rules@[i]]
                    0 <= i < route.rules@.len() ==> match route.rules@[i].backends {
                        Some(Distribution::FirstAvailable(list)) => {
                            &&& final(route).rules@[i].backends matches Some(
                                Distribution::FirstAvailable(forwarding),
                            )
                            &&& forwarding@.len() == list@.len()
                            &&& forall|j: int|
                                #![trigger forwarding@[j]]
                                0 <= j < list@.len() ==> {
                                    &&& list@[j] is None ==> forwarding@[j] is None
                                    &&& list@[j] is Some ==> forwarding@[j] is Some
                                        && forwarding@[j]->0.rest == list@[j]->0.rest
                                        && forwarding@[j]->0.kind == Some(
                                        BackendKind::Forward(Forward { addr, weight: 1, tagged }),
                                    )
                                }
                        },
                        _ => final(route).rules@[i] == route.rules@[i],
                    }
            },
{
}

/// The routes of both have the same shape, and every backend of a first
/// available rule forwards in the second.
pub open spec fn all_forward<Q>(
    before: Seq<Route<Q>>,
    after: Seq<Route<Q>>,
    addr: SocketAddr,
    tagged: Option<Tagged>,
) -> bool {
    &&& after.len() == before.len()
    &&& forall|r: int|
        0 <= r < before.len() ==> (#[trigger] after[r]).rules@.len() == before[r].rules@.len()
    &&& forall|r: int, i: int|
        #![trigger after[r].rules@[i]]
        0 <= r < before.len() && 0 <= i < before[r].rules@.len() ==> match before[r].rules@[i].backends {
            Some(Distribution::FirstAvailable(list)) => {
                &&& after[r].rules@[i].backends matches Some(
                    Distribution::FirstAvailable(forwarding),
                )
                &&& forwarding@.len() == list@.len()
                &&& forall|j: int|
                    #![trigger forwarding@[j]]
                    0 <= j < list@.len() ==> {
                        &&& list@[j] is None ==> forwarding@[j] is None
                        &&& list@[j] is Some ==> forwarding@[j] is Some && forwarding@[j]->0.rest
                            == list@[j]->0.rest && forwarding@[j]->0.kind == Some(
                            BackendKind::Forward(Forward { addr, weight: 1, tagged }),
                        )
                    }
            },
            _ => after[r].rules@[i] == before[r].rules@[i],
        }
}

proof fn routes_all_forward<Q>(
    before: Vec<Route<Q>>,
    after: Vec<Route<Q>>,
    addr: SocketAddr,
    tagged: Option<Tagged>,
)
    requires
        routes_forwarded(Some(before), Some(after), addr, tagged),
    ensures
        all_forward(before@, after@, addr, tagged),
{
    assert forall|r: int| 0 <= r < before@.len() implies (#[trigger] after@[r]).rules@.len()
        == before@[r].rules@.len() by {
        assert(route_forwarded(before@[r], after@[r], addr, tagged));
    }
    assert forall|r: int, i: int|
        #![trigger after@[r].rules@[i]]
        0 <= r < before@.len() && 0 <= i < before@[r].rules@.len() implies rule_forwarded(
        before@[r].rules@[i],
        after@[r].rules@[i],
        addr,
        tagged,
    ) by {
        assert(route_forwarded(before@[r], after@[r], addr, tagged));
    }
    assert forall|r: int, i: int|
        #![trigger after@[r].rules@[i]]
        0 <= r < before@.len() && 0 <= i < before@[r].rules@.len() implies match before@[r].rules@[i].backends {
        Some(Distribution::FirstAvailable(list)) => {
            &&& after@[r].rules@[i].backends matches Some(Distribution::FirstAvailable(forwarding))
            &&& forwarding@.len() == list@.len()
            &&& forall|j: int|
                #![trigger forwarding@[j]]
                0 <= j < list@.len() ==> {
                    &&& list@[j] is None ==> forwarding@[j] is None
                    &&& list@[j] is Some ==> forwarding@[j] is Some && forwarding@[j]->0.rest
                        == list@[j]->0.rest && forwarding@[j]->0.kind == Some(
                        BackendKind::Forward(Forward { addr, weight: 1, tagged }),
                    )
                }
        },
        _ => after@[r].rules@[i] == before@[r].rules@[i],
    } by {
        assert(rule_forwarded(before@[r].rules@[i], after@[r].rules@[i], addr, tagged));
    }
}

/// A policy that detects forwards whatever it detects: HTTP/1, HTTP/2 and opaque
/// routes, each where it has them. Where only opaque forwarding is wanted, its
/// opaque routes are all that is left, and none where it had none; another policy
/// is then gone, and otherwise stays as it is.
pub proof fn a_policy_forwards_what_it_detects<Q>(
    protocol: Option<ProxyProtocol<Q>>,
    addr: SocketAddr,
    tagged: Option<Tagged>,
    opaque_only: bool,
    r: Option<ProxyProtocol<Q>>,
)
    requires
        call_ensures(forward_policy::<Q>, (protocol, addr, &tagged, opaque_only), r),
    ensures
        match protocol {
            Some(ProxyProtocol::Detect(detect)) => {
                &&& opaque_only ==> {
                    &&& r matches Some(ProxyProtocol::Opaque(routes))
                    &&& detect.opaque is None ==> routes@.len() == 0
                    &&& detect.opaque is Some ==> all_forward(
                        detect.opaque->0@,
                        routes@,
                        addr,
                        tagged,
                    )
                }
                &&& !opaque_only ==> {
                    &&& r matches Some(ProxyProtocol::Detect(forwarding))
                    &&& forwarding.http1 is Some <==> detect.http1 is Some
                    &&& forwarding.http2 is Some <==> detect.http2 is Some
                    &&& forwarding.opaque is Some <==> detect.opaque is Some
                    &&& detect.http1 is Some ==> all_forward(
                        detect.http1->0@,
                        forwarding.http1->0@,
                        addr,
                        tagged,
                    )
                    &&& detect.http2 is Some ==> all_forward(
                        detect.http2->0@,
                        forwarding.http2->0@,
                        addr,
                        tagged,
                    )
                    &&& detect.opaque is Some ==> all_forward(
                        detect.opaque->0@,
                        forwarding.opaque->0@,
                        addr,
                        tagged,
                    )
                }
            },
            _ => {
                &&& opaque_only ==> r is None
                &&& !opaque_only ==> r == protocol
            },
        },
{
    if let Some(ProxyProtocol::Detect(detect)) = protocol {
        match r {
            Some(ProxyProtocol::Opaque(routes)) => {
                if let Some(opaque) = detect.opaque {
                    routes_all_forward(opaque, routes, addr, tagged);
                }
            },
            Some(ProxyProtocol::Detect(forwarding)) => {
                if let (Some(before), Some(after)) = (detect.http1, forwarding.http1) {
                    routes_all_forward(before, after, addr, tagged);
                }
                if let (Some(before), Some(after)) = (detect.http2, forwarding.http2) {
                    routes_all_forward(before, after, addr, tagged);
                }
                if let (Some(before), Some(after)) = (detect.opaque, forwarding.opaque) {
                    routes_all_forward(before, after, addr, tagged);
                }
            },
            _ => {},
        }
    }
}

/// An identity that is given and not empty is required; otherwise anybody is let
/// in.
pub proof fn an_identity_is_required_where_given(required: Option<String>, r: InboundFixture)
    requires
        call_ensures(inbound_fixture, (required,), r),
    ensures
        required is None || required->0@.len() == 0 ==> r is Anybody,
        required is Some && required->0@.len() > 0 ==> (r matches InboundFixture::Identity(name)
            && name@ == required->0@),
{
}

/// The first certificate of a chain is the leaf, the others follow it in their
/// order, and the answer is good for a day; a chain without a certificate makes
/// none.
pub proof fn a_chain_is_a_leaf_and_its_issuers(
    chain: Vec<Vec<u8>>,
    now: u64,
    r: Result<CertifyResponse, CertifyError>,
)
    requires
        call_ensures(answer_with, (chain, now), r),
    ensures
        chain@.len() == 0 ==> (r matches Err(error) && error is Empty),
        chain@.len() > 0 ==> r is Ok,
        r matches Ok(response) ==> {
            &&& seq![response.leaf_certificate] + response.intermediate_certificates@ == chain@
            &&& response.valid_until == now + 24 * 60 * 60
        },
{
    if let Ok(response) = r {
        assert(seq![response.leaf_certificate] + response.intermediate_certificates@ =~= chain@);
    }
}

/// A client is answered with the certificates of the text, in their order, good
/// for a day; a text that is no PEM and one without a certificate are told apart.
pub proof fn a_text_answers_with_its_certificates(
    pem: &[u8],
    now: u64,
    r: Result<CertifyResponse, CertifyError>,
)
    requires
        call_ensures(certify_response, (pem, now), r),
    ensures
        match certificates_of(pem@) {
            None => r matches Err(error) && error is Pem,
            Some(chain) => {
                &&& chain.len() == 0 ==> (r matches Err(error) && error is Empty)
                &&& chain.len() > 0 ==> r is Ok
                &&& r matches Ok(response) ==> {
                    let others = response.intermediate_certificates@;
                    &&& others.len() + 1 == chain.len()
                    &&& response.leaf_certificate@ == chain[0]
                    &&& forall|i: int|
                        0 <= i < others.len() ==> (#[trigger] others[i])@ == chain[i + 1]
                    &&& response.valid_until == now + 24 * 60 * 60
                }
            },
        },
{
    if let (Some(chain), Ok(response)) = (certificates_of(pem@), r) {
        let others = response.intermediate_certificates@;
        assert(byte_views(others).len() == others.len());
        assert forall|i: int| 0 <= i < others.len() implies (#[trigger] others[i])@ == chain[i
            + 1] by {
            assert(byte_views(others)[i] == others[i]@);
        }
    }
}

/// A copy of a peer's tag is the same tag.
pub proof fn a_tag_is_copied_whole(tag: Tagged, r: Tagged)
    requires
        call_ensures(Tagged::clone, (&tag,), r),
    ensures
        r.identity@ == tag.identity@,
        r.inbound_port == tag.inbound_port,
{
}

} // verus!
