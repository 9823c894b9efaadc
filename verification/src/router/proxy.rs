//! What the router does with a request: route, rewrite, forward, return.
use vstd::prelude::*;

use http::HeaderMap;

use crate::h2::head::{build_uri, uri_of};
use crate::headers::{
    header_list, header_values, insert_header, is_name, is_text_byte, is_value, name_text,
    remove_header, value_text, values_of, ROOM_FOR_NAMES,
};
use crate::net::SocketAddr;
use crate::router::config::{BackendProto, Config};
use crate::split::{pieces, split_bytes, trim_blanks, trim_bytes};
use crate::text::{ascii_bytes, utf8};

verus! {

/// Status codes of the router's own answers.
pub const BAD_REQUEST: u16 = 400;

pub const BAD_GATEWAY: u16 = 502;

pub const SERVICE_UNAVAILABLE: u16 = 503;

/// Headers that belong to one connection and are not forwarded.
pub open spec fn is_hop_by_hop(name: Seq<char>) -> bool {
    ||| name == "connection"@
    ||| name == "proxy-authenticate"@
    ||| name == "proxy-authorization"@
    ||| name == "te"@
    ||| name == "trailer"@
    ||| name == "transfer-encoding"@
    ||| name == "upgrade"@
    ||| name == "keep-alive"@
    ||| name == "proxy-connection"@
}

/// The names of the headers that belong to one connection.
pub fn hop_by_hop() -> (r: [&'static str; 9])
    ensures
        forall|name: Seq<char>| is_hop_by_hop(name) <==> exists|i: int|
            0 <= i < 9 && (#[trigger] r@[i])@ == name,
{
    let r = [
        "connection",
        "proxy-authenticate",
        "proxy-authorization",
        "te",
        "trailer",
        "transfer-encoding",
        "upgrade",
        "keep-alive",
        "proxy-connection",
    ];
    proof {
        assert forall|name: Seq<char>| is_hop_by_hop(name) <==> exists|i: int|
            0 <= i < 9 && (#[trigger] r@[i])@ == name by {
            assert(r@[0]@ == "connection"@);
            assert(r@[1]@ == "proxy-authenticate"@);
            assert(r@[2]@ == "proxy-authorization"@);
            assert(r@[3]@ == "te"@);
            assert(r@[4]@ == "trailer"@);
            assert(r@[5]@ == "transfer-encoding"@);
            assert(r@[6]@ == "upgrade"@);
            assert(r@[7]@ == "keep-alive"@);
            assert(r@[8]@ == "proxy-connection"@);
        }
    }
    r
}

/// A name in lower case that is ASCII and a header name stands for itself.
pub open spec fn stands_for_itself(name: Seq<char>) -> bool {
    is_name(utf8(name)) && name_text(utf8(name)) == name
}

proof fn hop_by_hop_are_names(name: Seq<char>)
    requires
        is_hop_by_hop(name),
    ensures
        stands_for_itself(name),
{
    reveal_strlit("connection");
    reveal_strlit("proxy-authenticate");
    reveal_strlit("proxy-authorization");
    reveal_strlit("te");
    reveal_strlit("trailer");
    reveal_strlit("transfer-encoding");
    reveal_strlit("upgrade");
    reveal_strlit("keep-alive");
    reveal_strlit("proxy-connection");
    ascii_bytes(name);
    assert(name_text(utf8(name)) =~= name);
}

/// The value of a `Connection` header nominates `name`: one of the names it
/// lists.
pub open spec fn lists(value: Seq<u8>, name: Seq<char>) -> bool {
    value_text(value) is Some && exists|j: int|
        0 <= j < pieces(value, 0x2c).len() && is_name(
            trim_blanks(#[trigger] pieces(value, 0x2c)[j]),
        ) && name_text(trim_blanks(pieces(value, 0x2c)[j])) == name
}

/// The headers nominate `name` as belonging to the connection.
pub open spec fn is_nominated(headers: Map<Seq<char>, Seq<Seq<u8>>>, name: Seq<char>) -> bool {
    exists|i: int|
        0 <= i < values_of(headers, "connection"@).len() && lists(
            #[trigger] values_of(headers, "connection"@)[i],
            name,
        )
}

/// `name` is one of `names`.
pub open spec fn is_among(names: Seq<Vec<u8>>, name: Seq<char>) -> bool {
    exists|i: int|
        0 <= i < names.len() && is_name((#[trigger] names[i])@) && name_text(names[i]@) == name
}

/// The headers whose names `gone` does not hold of.
pub open spec fn keeps(
    before: Map<Seq<char>, Seq<Seq<u8>>>,
    after: Map<Seq<char>, Seq<Seq<u8>>>,
    gone: spec_fn(Seq<char>) -> bool,
) -> bool {
    &&& forall|name: Seq<char>| #[trigger]
        after.contains_key(name) <==> before.contains_key(name) && !gone(name)
    &&& forall|name: Seq<char>| #[trigger]
        after.contains_key(name) ==> after[name] == before[name]
}

/// The names that one value lists.
fn listed(value: &Vec<u8>, names: &mut Vec<Vec<u8>>)
    ensures
        forall|name: Seq<char>| #[trigger]
            is_among(final(names)@, name) <==> is_among(old(names)@, name) || lists(value@, name),
{
    let mut i: usize = 0;
    while i < value.len()
        invariant
            i <= value.len(),
            forall|k: int| 0 <= k < i ==> is_text_byte(#[trigger] value@[k]),
        decreases value.len() - i,
    {
        let b: u8 = value[i];
        if !((32 <= b && b < 127) || b == 9) {
            assert(!is_text_byte(value@[i as int]));
            return;
        }
        i = i + 1;
    }
    assert(value_text(value@) is Some);
    let parts = split_bytes(value.as_slice(), 0x2c);
    let ghost all = pieces(value@, 0x2c);
    let mut j: usize = 0;
    while j < parts.len()
        invariant
            j <= parts.len(),
            parts@.len() == all.len(),
            all == pieces(value@, 0x2c),
            value_text(value@) is Some,
            forall|k: int| 0 <= k < parts@.len() ==> (#[trigger] parts@[k])@ == all[k],
            forall|name: Seq<char>| #[trigger]
                is_among(names@, name) <==> is_among(old(names)@, name) || exists|k: int|
                    0 <= k < j && is_name(trim_blanks(#[trigger] all[k])) && name_text(
                        trim_blanks(all[k]),
                    ) == name,
        decreases parts.len() - j,
    {
        let ghost before = names@;
        let part = vstd::slice::slice_to_vec(trim_bytes(parts[j].as_slice()));
        assert(part@ == trim_blanks(all[j as int]));
        names.push(part);
        proof {
            assert forall|name: Seq<char>| #[trigger]
                is_among(names@, name) <==> is_among(old(names)@, name) || exists|k: int|
                    0 <= k < j + 1 && is_name(trim_blanks(#[trigger] all[k])) && name_text(
                        trim_blanks(all[k]),
                    ) == name by {
                among_push(before, part, name);
                if is_name(part@) && name_text(part@) == name {
                    assert(is_name(trim_blanks(all[j as int])));
                }
            }
        }
        j = j + 1;
    }
    proof {
        assert forall|name: Seq<char>| #[trigger]
            is_among(names@, name) <==> is_among(old(names)@, name) || lists(value@, name) by {}
    }
}

proof fn among_push(names: Seq<Vec<u8>>, more: Vec<u8>, name: Seq<char>)
    ensures
        is_among(names.push(more), name) <==> is_among(names, name) || (is_name(more@)
            && name_text(more@) == name),
{
    let all = names.push(more);
    if is_among(names, name) {
        let i = choose|i: int|
            0 <= i < names.len() && is_name((#[trigger] names[i])@) && name_text(names[i]@) == name;
        assert(all[i] == names[i]);
    }
    if is_name(more@) && name_text(more@) == name {
        assert(all[names.len() as int] == more);
    }
    if is_among(all, name) {
        let i = choose|i: int|
            0 <= i < all.len() && is_name((#[trigger] all[i])@) && name_text(all[i]@) == name;
        if i < names.len() {
            assert(names[i] == all[i]);
        }
    }
}

/// The names that the `Connection` headers list.
fn nominated(headers: &HeaderMap) -> (r: Vec<Vec<u8>>)
    ensures
        forall|name: Seq<char>| #[trigger]
            is_among(r@, name) <==> is_nominated(header_values(*headers), name),
{
    proof {
        hop_by_hop_are_names("connection"@);
    }
    let values = header_list(headers, "connection".as_bytes());
    let ghost all = values_of(header_values(*headers), "connection"@);
    let mut names: Vec<Vec<u8>> = Vec::new();
    let mut i: usize = 0;
    while i < values.len()
        invariant
            i <= values.len(),
            values@.len() == all.len(),
            all == values_of(header_values(*headers), "connection"@),
            forall|k: int| 0 <= k < values@.len() ==> (#[trigger] values@[k])@ == all[k],
            forall|name: Seq<char>| #[trigger]
                is_among(names@, name) <==> exists|k: int|
                    0 <= k < i && lists(#[trigger] all[k], name),
        decreases values.len() - i,
    {
        let ghost before = names@;
        listed(&values[i], &mut names);
        proof {
            assert forall|name: Seq<char>| #[trigger]
                is_among(names@, name) <==> exists|k: int|
                    0 <= k < i + 1 && lists(#[trigger] all[k], name) by {
                assert(is_among(names@, name) <==> is_among(before, name) || lists(
                    all[i as int],
                    name,
                ));
            }
        }
        i = i + 1;
    }
    names
}

/// Drop the headers that belong to one connection: those that always do, and
/// those that a `Connection` header nominates.
pub fn strip_hop_by_hop(headers: &mut HeaderMap)
    ensures
        keeps(
            header_values(*old(headers)),
            header_values(*final(headers)),
            |name: Seq<char>|
                is_hop_by_hop(name) || is_nominated(header_values(*old(headers)), name),
        ),
{
    let names = nominated(headers);
    let ghost start = header_values(*headers);
    let mut i: usize = 0;
    while i < names.len()
        invariant
            i <= names.len(),
            keeps(
                start,
                header_values(*headers),
                |name: Seq<char>| is_among(names@.take(i as int), name),
            ),
        decreases names.len() - i,
    {
        let ghost before = header_values(*headers);
        remove_header(headers, names[i].as_slice());
        proof {
            let after = header_values(*headers);
            assert(names@.take(i + 1) =~= names@.take(i as int).push(names@[i as int]));
            assert forall|name: Seq<char>| #[trigger]
                after.contains_key(name) <==> start.contains_key(name) && !is_among(
                    names@.take(i + 1),
                    name,
                ) by {
                among_push(names@.take(i as int), names@[i as int], name);
                assert(before.contains_key(name) <==> start.contains_key(name) && !is_among(
                    names@.take(i as int),
                    name,
                ));
            }
            assert forall|name: Seq<char>| #[trigger] after.contains_key(name) implies after[name]
                == start[name] by {
                assert(before.contains_key(name));
            }
        }
        i = i + 1;
    }
    assert(names@.take(i as int) =~= names@);
    let ghost middle = header_values(*headers);
    let always = hop_by_hop();
    let mut j: usize = 0;
    while j < 9
        invariant
            j <= 9,
            forall|name: Seq<char>| is_hop_by_hop(name) <==> exists|k: int|
                0 <= k < 9 && (#[trigger] always@[k])@ == name,
            keeps(
                middle,
                header_values(*headers),
                |name: Seq<char>| exists|k: int| 0 <= k < j && (#[trigger] always@[k])@ == name,
            ),
        decreases 9 - j,
    {
        let ghost before = header_values(*headers);
        let name: &str = always[j];
        proof {
            assert(always@[j as int]@ == name@);
            assert(is_hop_by_hop(name@));
            hop_by_hop_are_names(name@);
        }
        remove_header(headers, name.as_bytes());
        proof {
            let after = header_values(*headers);
            assert forall|n: Seq<char>| #[trigger]
                after.contains_key(n) <==> middle.contains_key(n) && !(exists|k: int|
                    0 <= k < j + 1 && (#[trigger] always@[k])@ == n) by {
                assert(before.contains_key(n) <==> middle.contains_key(n) && !(exists|k: int|
                    0 <= k < j && (#[trigger] always@[k])@ == n));
            }
            assert forall|n: Seq<char>| #[trigger] after.contains_key(n) implies after[n]
                == middle[n] by {
                assert(before.contains_key(n));
            }
        }
        j = j + 1;
    }
    proof {
        let end = header_values(*headers);
        assert forall|name: Seq<char>| #[trigger]
            end.contains_key(name) <==> start.contains_key(name) && !(is_hop_by_hop(name)
                || is_nominated(start, name)) by {
            assert(middle.contains_key(name) <==> start.contains_key(name) && !is_among(
                names@,
                name,
            ));
        }
        assert forall|name: Seq<char>| #[trigger] end.contains_key(name) implies end[name]
            == start[name] by {
            assert(middle.contains_key(name));
        }
    }
}

/// The URI, as text, that `http` reads from a text, if it is one.
pub uninterp spec fn parsed_uri(text: Seq<char>) -> Option<Seq<char>>;

/// `http::Uri::from_str`: the URI's text.
#[verifier::external_body]
fn parse_uri(text: &str) -> (r: Option<String>)
    ensures
        r is Some <==> parsed_uri(text@) is Some,
        r matches Some(uri) ==> uri@ == parsed_uri(text@)->0,
{
    text.parse::<http::Uri>().ok().map(|uri| uri.to_string())
}

/// What a request asks a backend for.
#[derive(Debug)]
pub struct Forwarded {
    pub uri: String,
    pub headers: HeaderMap,
}

/// The path that a request without one asks for.
pub open spec fn path_or_root(path_and_query: Option<&str>) -> Seq<char> {
    match path_and_query {
        Some(path) => path@,
        None => "/"@,
    }
}

/// The URI in the form that the protocol to the backend requires: with scheme
/// and authority for HTTP/2, without for HTTP/1.1.
pub open spec fn backend_uri(path: Seq<char>, authority: Seq<char>, proto: BackendProto) -> Option<
    Seq<char>,
> {
    match proto {
        BackendProto::H2 => uri_of(Some(utf8("http"@)), Some(utf8(authority)), utf8(path)),
        BackendProto::Http1 => parsed_uri(path),
    }
}

/// The headers without those that belong to one connection.
pub open spec fn forwardable(
    before: Map<Seq<char>, Seq<Seq<u8>>>,
    after: Map<Seq<char>, Seq<Seq<u8>>>,
) -> bool {
    keeps(
        before,
        after,
        |name: Seq<char>| is_hop_by_hop(name) || is_nominated(before, name),
    )
}

/// The headers of the forwarded request: what may be forwarded, with the
/// authority in the `Host` header for HTTP/1.1 and without one for HTTP/2.
pub open spec fn backend_headers(
    before: Map<Seq<char>, Seq<Seq<u8>>>,
    stripped: Map<Seq<char>, Seq<Seq<u8>>>,
    after: Map<Seq<char>, Seq<Seq<u8>>>,
    authority: Seq<char>,
    proto: BackendProto,
) -> bool {
    &&& forwardable(before, stripped)
    &&& after == match proto {
        BackendProto::H2 => stripped.remove("host"@),
        BackendProto::Http1 => stripped.insert("host"@, seq![utf8(authority)]),
    }
}

/// The headers of a request are forwarded as the others.
pub open spec fn forwards(
    before: Map<Seq<char>, Seq<Seq<u8>>>,
    after: Map<Seq<char>, Seq<Seq<u8>>>,
    authority: Seq<char>,
    proto: BackendProto,
) -> bool {
    exists|stripped: Map<Seq<char>, Seq<Seq<u8>>>| #[trigger]
        backend_headers(before, stripped, after, authority, proto)
}

proof fn host_stands_for_itself()
    ensures
        stands_for_itself("host"@),
{
    reveal_strlit("host");
    ascii_bytes("host"@);
    assert(name_text(utf8("host"@)) =~= "host"@);
}

/// The request to a backend whose URI is `uri`: with the headers that may be
/// forwarded, and the authority where the protocol has it. None where there is
/// no URI, or where the authority makes no header.
pub fn retarget(
    uri: Option<String>,
    headers: HeaderMap,
    authority: &str,
    proto: BackendProto,
) -> (r: Option<Forwarded>)
    ensures
        uri is None ==> r is None,
        proto == BackendProto::Http1 && !is_value(utf8(authority@)) ==> r is None,
        r matches Some(forwarded) ==> {
            &&& forwarded.uri == uri->0
            &&& forwards(
                header_values(headers),
                header_values(forwarded.headers),
                authority@,
                proto,
            )
        },
        r is None && uri is Some && is_value(utf8(authority@)) ==> proto == BackendProto::Http1
            && exists|stripped: Map<Seq<char>, Seq<Seq<u8>>>|
            #[trigger] forwardable(header_values(headers), stripped) && stripped.dom().len()
                > ROOM_FOR_NAMES,
        r is None ==> uri is None || proto == BackendProto::Http1,
{
    let mut headers = headers;
    let ghost before = header_values(headers);
    strip_hop_by_hop(&mut headers);
    let ghost stripped = header_values(headers);
    assert(forwardable(before, stripped));
    proof {
        host_stands_for_itself();
    }
    let uri = match uri {
        Some(uri) => uri,
        None => return None,
    };
    match proto {
        BackendProto::H2 => remove_header(&mut headers, "host".as_bytes()),
        BackendProto::Http1 => {
            if !insert_header(&mut headers, "host".as_bytes(), authority.as_bytes()) {
                return None;
            }
        },
    }
    let out = Forwarded { uri, headers };
    assert(backend_headers(before, stripped, header_values(out.headers), authority@, proto));
    assert(forwards(before, header_values(out.headers), authority@, proto));
    Some(out)
}

/// Retarget a request at a backend: drop the headers that belong to one
/// connection, and put the URI in the form that the protocol requires. None
/// where that makes no request.
pub fn rewrite(
    path_and_query: Option<&str>,
    headers: HeaderMap,
    authority: &str,
    proto: BackendProto,
) -> (r: Option<Forwarded>)
    ensures
        r matches Some(forwarded) ==> {
            &&& backend_uri(path_or_root(path_and_query), authority@, proto) == Some(
                forwarded.uri@,
            )
            &&& forwards(
                header_values(headers),
                header_values(forwarded.headers),
                authority@,
                proto,
            )
        },
        r is None ==> {
            ||| backend_uri(path_or_root(path_and_query), authority@, proto) is None
            ||| proto == BackendProto::Http1 && !is_value(utf8(authority@))
            ||| proto == BackendProto::Http1 && exists|stripped: Map<Seq<char>, Seq<Seq<u8>>>|
                #[trigger] forwardable(header_values(headers), stripped) && stripped.dom().len()
                    > ROOM_FOR_NAMES
        },
        proto == BackendProto::Http1 && !is_value(utf8(authority@)) ==> r is None,
        backend_uri(path_or_root(path_and_query), authority@, proto) is None ==> r is None,
{
    let path: &str = match path_and_query {
        Some(path) => path,
        None => "/",
    };
    let uri = match proto {
        BackendProto::H2 => build_uri(
            Some("http".as_bytes()),
            Some(authority.as_bytes()),
            path.as_bytes(),
        ),
        BackendProto::Http1 => parse_uri(path),
    };
    retarget(uri, headers, authority, proto)
}

/// Which action a request waits for.
#[derive(Clone, Copy, Debug, PartialEq, Eq, Structural)]
pub enum HandleStage {
    /// A channel of the request's own backend.
    Acquiring,
    /// A channel of the default backend.
    FallingBack,
    Rewriting,
    Sending,
    Done,
}

/// What the router does for a request.
#[derive(Clone, Copy, Debug, PartialEq, Eq, Structural)]
pub enum HandleAction {
    /// Wait for a channel that serves the address.
    Acquire(SocketAddr),
    /// Rewrite the request for the backend at the address.
    Rewrite(SocketAddr),
    /// Send the rewritten request over the channel that was acquired.
    Send,
    /// Return what the backend answered.
    Return,
    /// Answer with a status of the router's own.
    Answer(u16),
}

/// The routing of one request.
#[derive(Clone, Copy, Debug, PartialEq, Eq, Structural)]
pub struct Handle {
    pub stage: HandleStage,
    pub key: SocketAddr,
    pub default_backend: Option<SocketAddr>,
}

impl Handle {
    /// Route a request: by its authority where the routes name a backend for
    /// it, else to the destination of its connection.
    pub fn begin(config: &Config, authority: Option<&str>, dst: SocketAddr) -> (r: (
        Handle,
        HandleAction,
    ))
        ensures
            ({
                let key = match authority {
                    Some(authority) => match config.spec_route(authority@) {
                        Some(addr) => addr,
                        None => dst,
                    },
                    None => dst,
                };
                r == (
                    Handle {
                        stage: HandleStage::Acquiring,
                        key,
                        default_backend: config.default_backend,
                    },
                    HandleAction::Acquire(key),
                )
            }),
    {
        let key: SocketAddr = match config.route(authority) {
            Some(addr) => addr,
            None => dst,
        };
        (
            Handle {
                stage: HandleStage::Acquiring,
                key,
                default_backend: config.default_backend,
            },
            HandleAction::Acquire(key),
        )
    }

    /// Whether a channel was acquired in time.
    pub fn acquired(&mut self, acquired: bool) -> (r: HandleAction)
        requires
            old(self).stage == HandleStage::Acquiring || old(self).stage
                == HandleStage::FallingBack,
        ensures
            final(self).default_backend == old(self).default_backend,
            if acquired {
                &&& r == HandleAction::Rewrite(old(self).key)
                &&& *final(self) == (Handle { stage: HandleStage::Rewriting, ..*old(self) })
            } else if old(self).stage == HandleStage::Acquiring && old(self).default_backend is Some
                && old(self).default_backend != Some(old(self).key) {
                // The default backend is tried once, unless it is the same.
                &&& r == HandleAction::Acquire(old(self).default_backend->0)
                &&& *final(self) == (Handle {
                    stage: HandleStage::FallingBack,
                    key: old(self).default_backend->0,
                    ..*old(self)
                })
            } else {
                &&& r == HandleAction::Answer(SERVICE_UNAVAILABLE)
                &&& *final(self) == (Handle { stage: HandleStage::Done, ..*old(self) })
            },
    {
        if acquired {
            self.stage = HandleStage::Rewriting;
            return HandleAction::Rewrite(self.key);
        }
        if self.stage == HandleStage::Acquiring {
            if let Some(fallback) = self.default_backend {
                if fallback != self.key {
                    self.stage = HandleStage::FallingBack;
                    self.key = fallback;
                    return HandleAction::Acquire(fallback);
                }
            }
        }
        self.stage = HandleStage::Done;
        HandleAction::Answer(SERVICE_UNAVAILABLE)
    }

    /// Whether the request could be rewritten.
    pub fn rewritten(&mut self, rewritten: bool) -> (r: HandleAction)
        requires
            old(self).stage == HandleStage::Rewriting,
        ensures
            (*final(self), r) == if rewritten {
                (Handle { stage: HandleStage::Sending, ..*old(self) }, HandleAction::Send)
            } else {
                (Handle { stage: HandleStage::Done, ..*old(self) }, HandleAction::Answer(
                    BAD_REQUEST,
                ))
            },
    {
        if rewritten {
            self.stage = HandleStage::Sending;
            HandleAction::Send
        } else {
            self.stage = HandleStage::Done;
            HandleAction::Answer(BAD_REQUEST)
        }
    }

    /// Whether the backend answered.
    pub fn sent(&mut self, answered: bool) -> (r: HandleAction)
        requires
            old(self).stage == HandleStage::Sending,
        ensures
            *final(self) == (Handle { stage: HandleStage::Done, ..*old(self) }),
            r == if answered {
                HandleAction::Return
            } else {
                HandleAction::Answer(BAD_GATEWAY)
            },
    {
        self.stage = HandleStage::Done;
        if answered {
            HandleAction::Return
        } else {
            HandleAction::Answer(BAD_GATEWAY)
        }
    }
}

/// A forwarded request carries no header that belongs to one connection: not
/// one that always does, nor one that the request nominated.
pub proof fn forwarded_requests_are_stripped(
    before: Map<Seq<char>, Seq<Seq<u8>>>,
    after: Map<Seq<char>, Seq<Seq<u8>>>,
    authority: Seq<char>,
    proto: BackendProto,
    name: Seq<char>,
)
    requires
        forwards(before, after, authority, proto),
        is_hop_by_hop(name) || is_nominated(before, name),
        name != "host"@,
    ensures
        !after.contains_key(name),
{
}

/// The bytes of `value` from `c` to `d` are the name, in any case, and with
/// nothing but spaces and tabs around them stand between two commas or an end,
/// at `a` and `b`.
pub open spec fn names_at(
    value: Seq<u8>,
    name: Seq<char>,
    a: int,
    c: int,
    d: int,
    b: int,
) -> bool {
    &&& 0 <= a <= c < d <= b <= value.len()
    &&& a == 0 || value[a - 1] == 0x2c
    &&& b == value.len() || value[b] == 0x2c
    &&& forall|k: int| a <= k < c ==> (#[trigger] value[k]) == 32 || value[k] == 9
    &&& forall|k: int| d <= k < b ==> (#[trigger] value[k]) == 32 || value[k] == 9
    &&& is_name(value.subrange(c, d))
    &&& name_text(value.subrange(c, d)) == name
}

/// The value of a `Connection` header nominates `name`: it is text, and lists
/// the name.
pub open spec fn nominates(value: Seq<u8>, name: Seq<char>) -> bool {
    &&& forall|k: int|
        0 <= k < value.len() ==> 32 <= (#[trigger] value[k]) <= 126 || value[k] == 9
    &&& exists|a: int, c: int, d: int, b: int| #[trigger] names_at(value, name, a, c, d, b)
}

proof fn listed_is_nominated(value: Seq<u8>, name: Seq<char>)
    requires
        lists(value, name),
    ensures
        nominates(value, name),
{
    let all = pieces(value, 0x2c);
    let blank = |b: u8| crate::split::is_blank(b);
    assert forall|k: int| 0 <= k < value.len() implies 32 <= (#[trigger] value[k]) <= 126
        || value[k] == 9 by {
        assert(is_text_byte(value[k]));
    }
    let j = choose|j: int|
        0 <= j < all.len() && is_name(trim_blanks(#[trigger] all[j])) && name_text(
            trim_blanks(all[j]),
        ) == name;
    let (a, b) = crate::split::piece_stands(value, 0x2c, j);
    let piece = value.subrange(a, b);
    let (c, d) = crate::split::trimmed_stands(piece, blank);
    assert(piece.subrange(c, d) =~= value.subrange(a + c, a + d));
    assert forall|k: int| a <= k < a + c implies (#[trigger] value[k]) == 32 || value[k] == 9 by {
        assert(piece[k - a] == value[k]);
        assert(blank(piece[k - a]));
    }
    assert forall|k: int| a + d <= k < b implies (#[trigger] value[k]) == 32 || value[k] == 9 by {
        assert(piece[k - a] == value[k]);
        assert(blank(piece[k - a]));
    }
    assert(names_at(value, name, a, a + c, a + d, b));
}

proof fn nominated_is_listed(value: Seq<u8>, name: Seq<char>)
    requires
        nominates(value, name),
    ensures
        lists(value, name),
{
    let all = pieces(value, 0x2c);
    let blank = |b: u8| crate::split::is_blank(b);
    assert(forall|k: int| 0 <= k < value.len() ==> is_text_byte(#[trigger] value[k]));
    let (a, c, d, b) = choose|a: int, c: int, d: int, b: int| #[trigger]
        names_at(value, name, a, c, d, b);
    let inner = value.subrange(c, d);
    assert forall|k: int| c <= k < d implies crate::headers::is_name_byte(#[trigger] value[k]) by {
        assert(inner[k - c] == value[k]);
    }
    assert forall|k: int| a <= k < b implies #[trigger] value[k] != 0x2c by {}
    let j = crate::split::piece_is_found(value, 0x2c, a, b);
    let piece = value.subrange(a, b);
    assert forall|k: int| 0 <= k < c - a implies blank(#[trigger] piece[k]) by {
        assert(piece[k] == value[a + k]);
    }
    assert forall|k: int| d - a <= k < piece.len() implies blank(#[trigger] piece[k]) by {
        assert(piece[k] == value[a + k]);
    }
    assert(piece[c - a] == value[c] && piece[d - a - 1] == value[d - 1]);
    crate::split::trimmed_is(piece, blank, c - a, d - a);
    assert(piece.subrange(c - a, d - a) =~= inner);
    assert(trim_blanks(all[j]) == inner);
}

proof fn is_nominated_is(headers: Map<Seq<char>, Seq<Seq<u8>>>, name: Seq<char>)
    ensures
        is_nominated(headers, name) <==> headers.contains_key("connection"@) && exists|i: int|
            0 <= i < headers["connection"@].len() && nominates(
                #[trigger] headers["connection"@][i],
                name,
            ),
{
    assert forall|value: Seq<u8>| #[trigger] lists(value, name) == nominates(value, name) by {
        if lists(value, name) {
            listed_is_nominated(value, name);
        }
        if nominates(value, name) {
            nominated_is_listed(value, name);
        }
    }
    let values = values_of(headers, "connection"@);
    if is_nominated(headers, name) {
        let i = choose|i: int| 0 <= i < values.len() && lists(#[trigger] values[i], name);
        assert(nominates(headers["connection"@][i], name));
    }
    if headers.contains_key("connection"@) {
        assert forall|i: int|
            0 <= i < headers["connection"@].len() && nominates(
                #[trigger] headers["connection"@][i],
                name,
            ) implies is_nominated(headers, name) by {
            assert(lists(values[i], name));
        }
    }
}

/// Stripping takes every header away whose name is `connection`,
/// `proxy-authenticate`, `proxy-authorization`, `te`, `trailer`,
/// `transfer-encoding`, `upgrade`, `keep-alive` or `proxy-connection`, and every
/// header that a `Connection` header nominates; every other header stays, with
/// its values.
pub proof fn stripping_takes_nine_and_the_nominated(name: Seq<char>)
    ensures
        forall|headers: &mut HeaderMap| #[trigger]
            call_ensures(strip_hop_by_hop, (headers,), ()) ==> {
                let before = header_values(*headers);
                let after = header_values(*final(headers));
                let always = name == "connection"@ || name == "proxy-authenticate"@ || name
                    == "proxy-authorization"@ || name == "te"@ || name == "trailer"@ || name
                    == "transfer-encoding"@ || name == "upgrade"@ || name == "keep-alive"@ || name
                    == "proxy-connection"@;
                let named = before.contains_key("connection"@) && exists|i: int|
                    0 <= i < before["connection"@].len() && nominates(
                        #[trigger] before["connection"@][i],
                        name,
                    );
                &&& after.contains_key(name) <==> before.contains_key(name) && !always && !named
                &&& before.contains_key(name) && !always && !named ==> after[name] == before[name]
            },
{
    assert forall|headers: &mut HeaderMap| #[trigger]
        call_ensures(strip_hop_by_hop, (headers,), ()) implies {
        let before = header_values(*headers);
        is_nominated(before, name) <==> before.contains_key("connection"@) && exists|i: int|
            0 <= i < before["connection"@].len() && nominates(
                #[trigger] before["connection"@][i],
                name,
            )
    } by {
        is_nominated_is(header_values(*headers), name);
    }
}

/// The list of the names that are always stripped holds the nine names, each
/// once, and no other.
pub proof fn nine_names_are_always_stripped(r: [&'static str; 9], name: Seq<char>)
    requires
        call_ensures(hop_by_hop, (), r),
    ensures
        (exists|i: int| 0 <= i < 9 && (#[trigger] r@[i])@ == name) <==> name == "connection"@
            || name == "proxy-authenticate"@ || name == "proxy-authorization"@ || name == "te"@
            || name == "trailer"@ || name == "transfer-encoding"@ || name == "upgrade"@ || name
            == "keep-alive"@ || name == "proxy-connection"@,
{
    assert(is_hop_by_hop(name) <==> exists|i: int| 0 <= i < 9 && (#[trigger] r@[i])@ == name);
}

proof fn forwards_is(
    before: Map<Seq<char>, Seq<Seq<u8>>>,
    after: Map<Seq<char>, Seq<Seq<u8>>>,
    authority: Seq<char>,
    proto: BackendProto,
    name: Seq<char>,
)
    requires
        forwards(before, after, authority, proto),
    ensures
        ({
            let always = name == "connection"@ || name == "proxy-authenticate"@ || name
                == "proxy-authorization"@ || name == "te"@ || name == "trailer"@ || name
                == "transfer-encoding"@ || name == "upgrade"@ || name == "keep-alive"@ || name
                == "proxy-connection"@;
            let named = before.contains_key("connection"@) && exists|i: int|
                0 <= i < before["connection"@].len() && nominates(
                    #[trigger] before["connection"@][i],
                    name,
                );
            &&& name != "host"@ ==> (after.contains_key(name) <==> before.contains_key(name)
                && !always && !named)
            &&& name != "host"@ && before.contains_key(name) && !always && !named ==> after[name]
                == before[name]
            &&& name == "host"@ && proto == BackendProto::H2 ==> !after.contains_key(name)
            &&& name == "host"@ && proto == BackendProto::Http1 ==> after.contains_key(name)
                && after[name] == seq![utf8(authority)]
        }),
{
    is_nominated_is(before, name);
    let stripped = choose|stripped: Map<Seq<char>, Seq<Seq<u8>>>| #[trigger]
        backend_headers(before, stripped, after, authority, proto);
    assert(stripped.contains_key(name) || !stripped.contains_key(name));
}

/// A forwarded request has every header of the request but those of the nine
/// names, those that a `Connection` header nominates, and `host`, each with its
/// values. Its `host` is the authority to an HTTP/1.1 backend, and there is none
/// to an HTTP/2 one. No other header is added.
pub proof fn what_may_be_forwarded_is(
    path_and_query: Option<&str>,
    headers: HeaderMap,
    authority: &str,
    proto: BackendProto,
    r: Option<Forwarded>,
    name: Seq<char>,
)
    requires
        call_ensures(rewrite, (path_and_query, headers, authority, proto), r),
        r is Some,
    ensures
        ({
            let before = header_values(headers);
            let after = header_values(r->0.headers);
            let always = name == "connection"@ || name == "proxy-authenticate"@ || name
                == "proxy-authorization"@ || name == "te"@ || name == "trailer"@ || name
                == "transfer-encoding"@ || name == "upgrade"@ || name == "keep-alive"@ || name
                == "proxy-connection"@;
            let named = before.contains_key("connection"@) && exists|i: int|
                0 <= i < before["connection"@].len() && nominates(
                    #[trigger] before["connection"@][i],
                    name,
                );
            &&& name != "host"@ ==> (after.contains_key(name) <==> before.contains_key(name)
                && !always && !named)
            &&& name != "host"@ && before.contains_key(name) && !always && !named ==> after[name]
                == before[name]
            &&& name == "host"@ && proto == BackendProto::H2 ==> !after.contains_key(name)
            &&& name == "host"@ && proto == BackendProto::Http1 ==> after.contains_key(name)
                && after[name] == seq![utf8(authority@)]
        }),
{
    forwards_is(header_values(headers), header_values(r->0.headers), authority@, proto, name);
}

/// The same of a request whose URI is given: it keeps the URI too.
pub proof fn what_is_retargeted_is(
    uri: Option<String>,
    headers: HeaderMap,
    authority: &str,
    proto: BackendProto,
    r: Option<Forwarded>,
    name: Seq<char>,
)
    requires
        call_ensures(retarget, (uri, headers, authority, proto), r),
        r is Some,
    ensures
        uri is Some && r->0.uri@ == uri->0@,
        ({
            let before = header_values(headers);
            let after = header_values(r->0.headers);
            let always = name == "connection"@ || name == "proxy-authenticate"@ || name
                == "proxy-authorization"@ || name == "te"@ || name == "trailer"@ || name
                == "transfer-encoding"@ || name == "upgrade"@ || name == "keep-alive"@ || name
                == "proxy-connection"@;
            let named = before.contains_key("connection"@) && exists|i: int|
                0 <= i < before["connection"@].len() && nominates(
                    #[trigger] before["connection"@][i],
                    name,
                );
            &&& name != "host"@ ==> (after.contains_key(name) <==> before.contains_key(name)
                && !always && !named)
            &&& name != "host"@ && before.contains_key(name) && !always && !named ==> after[name]
                == before[name]
            &&& name == "host"@ && proto == BackendProto::H2 ==> !after.contains_key(name)
            &&& name == "host"@ && proto == BackendProto::Http1 ==> after.contains_key(name)
                && after[name] == seq![utf8(authority@)]
        }),
{
    forwards_is(header_values(headers), header_values(r->0.headers), authority@, proto, name);
}

/// To an HTTP/2 backend a request is rewritten exactly where `http`, the
/// authority and its path make a URI, and it asks for that URI; to an HTTP/1.1
/// backend it asks for what its path alone is as a URI, and is not rewritten
/// where that is none or the authority makes no header. The path is `/` where
/// the request has none.
pub proof fn a_request_is_retargeted_by_protocol(
    path_and_query: Option<&str>,
    headers: HeaderMap,
    authority: &str,
    proto: BackendProto,
    r: Option<Forwarded>,
)
    requires
        call_ensures(rewrite, (path_and_query, headers, authority, proto), r),
    ensures
        ({
            let path = if path_and_query is Some {
                path_and_query->0@
            } else {
                "/"@
            };
            let absolute = uri_of(Some(utf8("http"@)), Some(utf8(authority@)), utf8(path));
            &&& proto == BackendProto::H2 ==> (r is Some <==> absolute is Some)
            &&& proto == BackendProto::H2 && r is Some ==> r->0.uri@ == absolute->0
            &&& proto == BackendProto::Http1 && r is Some ==> parsed_uri(path) == Some(r->0.uri@)
                && is_value(utf8(authority@))
            &&& proto == BackendProto::Http1 && r is None && parsed_uri(path) is Some && is_value(
                utf8(authority@),
            ) ==> exists|stripped: Map<Seq<char>, Seq<Seq<u8>>>|
                #[trigger] forwardable(header_values(headers), stripped) && stripped.dom().len()
                    > 6553
        }),
{
}

/// A request goes to the backend that the routes name for its authority, and to
/// the destination of its connection where they name none or it has none.
pub proof fn a_request_is_routed_or_goes_on(
    config: Config,
    authority: Option<&str>,
    dst: SocketAddr,
    route: Option<SocketAddr>,
    r: (Handle, HandleAction),
)
    requires
        call_ensures(Config::route, (&config, authority), route),
        call_ensures(Handle::begin, (&config, authority, dst), r),
    ensures
        r.1 == HandleAction::Acquire(
            if route is Some {
                route->0
            } else {
                dst
            },
        ),
        r.0.stage == HandleStage::Acquiring,
        HandleAction::Acquire(r.0.key) == r.1,
        r.0.default_backend == config.default_backend,
{
}

/// A request that gets a channel is rewritten for the backend it was acquired
/// for. One that gets none tries the default backend, once and only where that
/// is another; then it is answered with 503.
pub proof fn a_request_falls_back_once(acquired: bool)
    ensures
        forall|handle: &mut Handle, r: HandleAction| #[trigger]
            call_ensures(Handle::acquired, (handle, acquired), r) ==> {
                let fallback = handle.stage == HandleStage::Acquiring && handle.default_backend
                    is Some && handle.default_backend->0 != handle.key;
                &&& acquired ==> r == HandleAction::Rewrite(handle.key) && final(handle).stage
                    == HandleStage::Rewriting && final(handle).key == handle.key
                &&& !acquired && fallback ==> r == HandleAction::Acquire(handle.default_backend->0)
                    && final(handle).stage == HandleStage::FallingBack && final(handle).key
                    == handle.default_backend->0
                &&& !acquired && !fallback ==> r == HandleAction::Answer(503) && final(handle).stage
                    == HandleStage::Done
                &&& final(handle).default_backend == handle.default_backend
            },
{
}

/// A request that cannot be rewritten is answered with 400, one that the backend
/// does not answer with 502, and one that it answers with that answer.
pub proof fn a_request_is_answered(done: bool)
    ensures
        forall|handle: &mut Handle, r: HandleAction| #[trigger]
            call_ensures(Handle::rewritten, (handle, done), r) ==> {
                &&& done ==> r == HandleAction::Send && final(handle).stage == HandleStage::Sending
                &&& !done ==> r == HandleAction::Answer(400) && final(handle).stage
                    == HandleStage::Done
            },
        forall|handle: &mut Handle, r: HandleAction| #[trigger]
            call_ensures(Handle::sent, (handle, done), r) ==> {
                &&& done ==> r == HandleAction::Return
                &&& !done ==> r == HandleAction::Answer(502)
                &&& final(handle).stage == HandleStage::Done
            },
{
}

} // verus!
