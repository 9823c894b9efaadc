//! How the router is configured: by its environment alone.
use vstd::prelude::*;

use crate::net::SocketAddr;
use crate::split::{
    chars_of, first_index, pieces, split, split_once, string_of, trim, trim_text,
};

verus! {

/// Application protocol spoken to the backend over its channel.
#[derive(Clone, Copy, Debug, PartialEq, Eq, Structural)]
pub enum BackendProto {
    /// HTTP/1.1 keep-alive. One channel serves one request at a time.
    Http1,
    /// HTTP/2 with prior knowledge. One channel multiplexes every stream.
    H2,
}

/// Where requests go, and how.
#[derive(Debug)]
pub struct Config {
    /// Device address on the DPU.
    pub dev_pci: String,
    /// Representor address of the host function.
    pub rep_pci: String,
    /// Name under which the host connects.
    pub server_name: String,
    /// Worker threads. With one, everything runs on one thread.
    pub cores: usize,
    pub backend_proto: BackendProto,
    /// Backends by authority; of two entries of one authority the later counts.
    /// Where none is named, a connection routes to its own destination.
    pub routes: Vec<(String, SocketAddr)>,
    /// Used when neither the routes nor the flow's destination has a channel.
    pub default_backend: Option<SocketAddr>,
    /// Milliseconds that a request waits for its backend to register.
    pub backend_wait: u64,
    /// How many streams a client may have open.
    pub max_streams: u32,
}

/// The settings of the environment, as far as they are set.
#[derive(Debug)]
pub struct Environment {
    pub dev_pci: Option<String>,
    pub rep_pci: Option<String>,
    pub server_name: Option<String>,
    pub cores: Option<String>,
    pub backend_proto: Option<String>,
    pub routes: Option<String>,
    pub default_backend: Option<String>,
    pub backend_wait_ms: Option<String>,
    pub max_streams: Option<String>,
}

/// Which numeric setting is wrong.
#[derive(Clone, Copy, Debug, PartialEq, Eq, Structural)]
pub enum NumberSetting {
    Cores,
    BackendWait,
    MaxStreams,
}

/// What is wrong with the environment.
#[derive(Debug)]
pub enum ConfigError {
    /// The setting, its value and what is wrong with it.
    Number(NumberSetting, String, String),
    /// The protocol is none that is known.
    Proto(String),
    /// The entry is not an authority and an address.
    Route(String),
    /// The entry, and what is wrong with its address.
    RouteAddress(String, String),
    /// The address, and what is wrong with it.
    DefaultBackend(String, String),
}

/// The backend that `routes` name for `authority`.
pub open spec fn lookup(routes: Seq<(String, SocketAddr)>, authority: Seq<char>) -> Option<
    SocketAddr,
>
    decreases routes.len(),
{
    if routes.len() == 0 {
        None
    } else if routes.last().0@ == authority {
        Some(routes.last().1)
    } else {
        lookup(routes.drop_last(), authority)
    }
}

fn find_route(routes: &Vec<(String, SocketAddr)>, authority: &String) -> (r: Option<SocketAddr>)
    ensures
        r == lookup(routes@, authority@),
{
    let mut i: usize = routes.len();
    assert(routes@.take(i as int) =~= routes@);
    while i > 0
        invariant
            i <= routes.len(),
            lookup(routes@, authority@) == lookup(routes@.take(i as int), authority@),
        decreases i,
    {
        assert(routes@.take(i as int).last() == routes@[i - 1]);
        assert(routes@.take(i as int).drop_last() =~= routes@.take(i - 1));
        if routes[i - 1].0 == *authority {
            return Some(routes[i - 1].1);
        }
        i = i - 1;
    }
    None
}

/// An authority that begins with an address in brackets.
pub open spec fn is_bracketed(authority: Seq<char>) -> bool {
    authority.len() > 0 && authority[0] == '[' && first_index(authority, ']') < authority.len()
}

/// The host of an authority, without its port. An address in brackets runs to
/// the bracket that closes it, any other host to the first colon.
pub open spec fn host_of(authority: Seq<char>) -> Seq<char> {
    if is_bracketed(authority) {
        authority.take(first_index(authority, ']') + 1)
    } else {
        authority.take(first_index(authority, ':'))
    }
}

fn host(authority: &[char]) -> (r: String)
    ensures
        r@ == host_of(authority@),
{
    proof {
        crate::split::first_index_bounds(authority@, ':');
        crate::split::first_index_bounds(authority@, ']');
    }
    if authority.len() > 0 && authority[0] == '[' {
        if let Some((address, _)) = split_once(authority, ']') {
            let mut host = string_of(address);
            host.push(']');
            proof {
                crate::split::first_index_at(authority@, ']');
            }
            assert(host@ =~= host_of(authority@));
            return host;
        }
    }
    match split_once(authority, ':') {
        Some((host, _)) => string_of(host),
        None => {
            assert(authority@.take(first_index(authority@, ':')) =~= authority@);
            string_of(authority)
        },
    }
}

impl Config {
    pub open spec fn spec_route(self, authority: Seq<char>) -> Option<SocketAddr> {
        match lookup(self.routes@, authority) {
            Some(addr) => Some(addr),
            None => lookup(self.routes@, host_of(authority)),
        }
    }

    /// The backend that the routes name for a request's authority: by the
    /// whole of it first, then by the bare host.
    pub fn route(&self, authority: Option<&str>) -> (r: Option<SocketAddr>)
        ensures
            r == match authority {
                Some(authority) => self.spec_route(authority@),
                None => None,
            },
    {
        let authority: &str = match authority {
            Some(authority) => authority,
            None => return None,
        };
        if let Some(addr) = find_route(&self.routes, &authority.to_owned()) {
            return Some(addr);
        }
        let chars = chars_of(authority);
        find_route(&self.routes, &host(chars.as_slice()))
    }
}

/// The entries of a list of routes: what stands between commas and is not
/// blank, without the white space around it.
pub open spec fn route_entries(list: Seq<char>) -> Seq<Seq<char>> {
    nonblank(pieces(list, ','))
}

pub open spec fn nonblank(parts: Seq<Seq<char>>) -> Seq<Seq<char>>
    decreases parts.len(),
{
    if parts.len() == 0 {
        Seq::empty()
    } else {
        let before = nonblank(parts.drop_last());
        let entry = trim_text(parts.last());
        if entry.len() == 0 {
            before
        } else {
            before.push(entry)
        }
    }
}

/// The entry names an authority and an address.
pub open spec fn is_route(entry: Seq<char>) -> bool {
    first_index(entry, '=') < entry.len()
}

pub open spec fn route_authority(entry: Seq<char>) -> Seq<char> {
    trim_text(entry.take(first_index(entry, '=')))
}

pub open spec fn route_address(entry: Seq<char>) -> Seq<char> {
    trim_text(entry.skip(first_index(entry, '=') + 1))
}

/// `parse` made `addr` of the text.
pub open spec fn parses<F: Fn(&str) -> Result<SocketAddr, String>>(
    parse: F,
    text: Seq<char>,
    result: Result<SocketAddr, String>,
) -> bool {
    exists|s: &str| s@ == text && #[trigger] parse.ensures((s,), result)
}

/// `route` is what the entry names.
pub open spec fn names_route<F: Fn(&str) -> Result<SocketAddr, String>>(
    parse: F,
    entry: Seq<char>,
    route: (String, SocketAddr),
) -> bool {
    &&& is_route(entry)
    &&& route.0@ == route_authority(entry)
    &&& parses(parse, route_address(entry), Ok(route.1))
}

/// What is wrong with the entry.
pub open spec fn bad_route<F: Fn(&str) -> Result<SocketAddr, String>>(
    parse: F,
    entry: Seq<char>,
    error: ConfigError,
) -> bool {
    if !is_route(entry) {
        error matches ConfigError::Route(text) && text@ == entry
    } else {
        error matches ConfigError::RouteAddress(text, detail) && text@ == entry && parses(
            parse,
            route_address(entry),
            Err(detail),
        )
    }
}

/// `routes` are what the first entries name.
pub open spec fn routes_so_far<F: Fn(&str) -> Result<SocketAddr, String>>(
    parse: F,
    entries: Seq<Seq<char>>,
    routes: Seq<(String, SocketAddr)>,
) -> bool {
    &&& routes.len() <= entries.len()
    &&& forall|i: int|
        0 <= i < routes.len() ==> names_route(parse, entries[i], #[trigger] routes[i])
}

/// What the entries make of `routes`: all of them, or the error of the first
/// that is wrong.
pub open spec fn routes_outcome<F: Fn(&str) -> Result<SocketAddr, String>>(
    parse: F,
    entries: Seq<Seq<char>>,
    r: Result<Vec<(String, SocketAddr)>, ConfigError>,
) -> bool {
    match r {
        Ok(routes) => routes@.len() == entries.len() && routes_so_far(parse, entries, routes@),
        Err(error) => exists|routes: Seq<(String, SocketAddr)>|
            #![trigger routes_so_far(parse, entries, routes)]
            routes.len() < entries.len() && routes_so_far(parse, entries, routes) && bad_route(
                parse,
                entries[routes.len() as int],
                error,
            ),
    }
}

fn parse_route<F: Fn(&str) -> Result<SocketAddr, String>>(entry: &[char], parse: &F) -> (r: Result<
    (String, SocketAddr),
    ConfigError,
>)
    requires
        forall|s: &str| parse.requires((s,)),
    ensures
        match r {
            Ok(route) => names_route(*parse, entry@, route),
            Err(error) => bad_route(*parse, entry@, error),
        },
{
    let (authority, address): (&[char], &[char]) = match split_once(entry, '=') {
        Some(parts) => parts,
        None => {
            proof {
                crate::split::first_index_bounds(entry@, '=');
            }
            return Err(ConfigError::Route(string_of(entry)));
        },
    };
    let text = string_of(trim(address));
    let given: &str = text.as_str();
    let parsed = parse(given);
    let ghost result = parsed;
    assert(parse.ensures((given,), result));
    assert(parses(*parse, route_address(entry@), result));
    match parsed {
        Ok(addr) => Ok((string_of(trim(authority)), addr)),
        Err(detail) => Err(ConfigError::RouteAddress(string_of(entry), detail)),
    }
}

/// Read a list such as `svc.example.com=10.0.0.1:8086,other:8080=10.0.0.2:8086`.
/// `parse` reads an address.
pub fn parse_routes<F: Fn(&str) -> Result<SocketAddr, String>>(list: &str, parse: &F) -> (r: Result<
    Vec<(String, SocketAddr)>,
    ConfigError,
>)
    requires
        forall|s: &str| parse.requires((s,)),
    ensures
        routes_outcome(*parse, route_entries(list@), r),
{
    let chars = chars_of(list);
    let parts = split(chars.as_slice(), ',');
    let ghost all = pieces(list@, ',');
    let ghost entries = route_entries(list@);
    let mut routes: Vec<(String, SocketAddr)> = Vec::new();
    let mut i: usize = 0;
    assert(all.take(0) =~= Seq::<Seq<char>>::empty());
    while i < parts.len()
        invariant
            i <= parts.len(),
            parts@.len() == all.len(),
            forall|k: int| 0 <= k < parts@.len() ==> (#[trigger] parts@[k])@ == all[k],
            all == pieces(list@, ','),
            entries == nonblank(all),
            forall|s: &str| parse.requires((s,)),
            routes@.len() == nonblank(all.take(i as int)).len(),
            routes_so_far(*parse, nonblank(all.take(i as int)), routes@),
        decreases parts.len() - i,
    {
        let entry = trim(parts[i].as_slice());
        let ghost so_far = nonblank(all.take(i as int));
        proof {
            assert(all.take(i + 1).drop_last() =~= all.take(i as int));
            assert(all.take(i + 1).last() == all[i as int]);
            nonblank_prefix(all, i + 1);
            nonblank_prefix(all, i as int);
        }
        if entry.len() > 0 {
            assert(nonblank(all.take(i + 1)) == so_far.push(entry@));
            match parse_route(entry, parse) {
                Ok(route) => {
                    routes.push(route);
                },
                Err(error) => {
                    let ghost found = routes@;
                    proof {
                        let next = nonblank(all.take(i + 1));
                        assert(next[so_far.len() as int] == entry@);
                        assert(entries[so_far.len() as int] == entry@);
                        assert forall|k: int| 0 <= k < found.len() implies names_route(
                            *parse,
                            entries[k],
                            #[trigger] found[k],
                        ) by {
                            assert(so_far[k] == entries[k]);
                        }
                        assert(routes_so_far(*parse, entries, found));
                    }
                    return Err(error);
                },
            }
        }
        i = i + 1;
    }
    assert(all.take(i as int) =~= all);
    Ok(routes)
}

/// The entries of the first parts come first among the entries of all.
proof fn nonblank_prefix(parts: Seq<Seq<char>>, i: int)
    requires
        0 <= i <= parts.len(),
    ensures
        nonblank(parts.take(i)).len() <= nonblank(parts).len(),
        forall|k: int|
            0 <= k < nonblank(parts.take(i)).len() ==> #[trigger] nonblank(parts.take(i))[k]
                == nonblank(parts)[k],
    decreases parts.len(),
{
    if i == parts.len() {
        assert(parts.take(i) =~= parts);
    } else {
        assert(parts.drop_last().take(i) =~= parts.take(i));
        nonblank_prefix(parts.drop_last(), i);
    }
}

/// The value of a setting that is set and not empty.
pub open spec fn given(value: Option<String>) -> Option<Seq<char>> {
    match value {
        Some(v) => if v@.len() > 0 {
            Some(v@)
        } else {
            None
        },
        None => None,
    }
}

/// A setting's value, or its default where it is not set or empty.
pub open spec fn given_or(value: Option<String>, default: Seq<char>) -> Seq<char> {
    match given(value) {
        Some(v) => v,
        None => default,
    }
}

fn var(value: &Option<String>, default: &str) -> (r: String)
    ensures
        r@ == given_or(*value, default@),
{
    match value {
        Some(v) => {
            if v.as_str().is_empty() {
                default.to_owned()
            } else {
                v.clone()
            }
        },
        None => default.to_owned(),
    }
}

/// The number that decimal digits write.
pub open spec fn number(digits: Seq<char>) -> nat
    decreases digits.len(),
{
    if digits.len() == 0 {
        0
    } else {
        number(digits.drop_last()) * 10 + (digits.last() as nat - '0' as nat) as nat
    }
}

/// Only decimal digits, and at least one.
pub open spec fn is_number(digits: Seq<char>) -> bool {
    digits.len() > 0 && forall|i: int|
        0 <= i < digits.len() ==> '0' <= #[trigger] digits[i] <= '9'
}

/// The number that a text writes: digits, behind a plus sign where there is
/// one.
pub open spec fn number_of(text: Seq<char>) -> Option<nat> {
    let digits = if text.len() > 0 && text[0] == '+' {
        text.skip(1)
    } else {
        text
    };
    if is_number(digits) {
        Some(number(digits))
    } else {
        None
    }
}

/// The number that a text writes, where it is at most `max`.
pub open spec fn number_upto(text: Seq<char>, max: nat) -> Option<nat> {
    match number_of(text) {
        Some(n) => if n <= max {
            Some(n)
        } else {
            None
        },
        None => None,
    }
}

/// `str::parse` to `usize`: digits, behind a plus sign where there is one. What
/// the error says is not stated.
#[verifier::external_body]
pub(crate) fn parse_usize(text: &str) -> (r: Result<usize, String>)
    ensures
        r matches Ok(n) ==> number_upto(text@, usize::MAX as nat) == Some(n as nat),
        r is Err ==> number_upto(text@, usize::MAX as nat) is None,
{
    text.parse::<usize>().map_err(|e| e.to_string())
}

/// `str::parse` to `u64`, as to `usize`.
#[verifier::external_body]
fn parse_u64(text: &str) -> (r: Result<u64, String>)
    ensures
        r matches Ok(n) ==> number_upto(text@, u64::MAX as nat) == Some(n as nat),
        r is Err ==> number_upto(text@, u64::MAX as nat) is None,
{
    text.parse::<u64>().map_err(|e| e.to_string())
}

/// `str::parse` to `u32`, as to `usize`.
#[verifier::external_body]
pub(crate) fn parse_u32(text: &str) -> (r: Result<u32, String>)
    ensures
        r matches Ok(n) ==> number_upto(text@, u32::MAX as nat) == Some(n as nat),
        r is Err ==> number_upto(text@, u32::MAX as nat) is None,
{
    text.parse::<u32>().map_err(|e| e.to_string())
}

/// The protocol that a name stands for.
pub open spec fn proto_of(name: Seq<char>) -> Option<BackendProto> {
    if name == "http1"@ || name == "h1"@ || name == "http/1.1"@ {
        Some(BackendProto::Http1)
    } else if name == "h2"@ || name == "http2"@ || name == "h2c"@ {
        Some(BackendProto::H2)
    } else {
        None
    }
}

/// The protocol that a name stands for.
pub fn parse_proto(name: &String) -> (r: Option<BackendProto>)
    ensures
        r == proto_of(name@),
{
    if *name == "http1".to_owned() || *name == "h1".to_owned() || *name == "http/1.1".to_owned() {
        Some(BackendProto::Http1)
    } else if *name == "h2".to_owned() || *name == "http2".to_owned() || *name == "h2c".to_owned() {
        Some(BackendProto::H2)
    } else {
        None
    }
}

impl Environment {
    pub open spec fn cores_number(self) -> Option<nat> {
        match given(self.cores) {
            Some(v) => number_upto(v, usize::MAX as nat),
            None => Some(1),
        }
    }

    pub open spec fn wait_number(self) -> Option<nat> {
        match given(self.backend_wait_ms) {
            Some(v) => number_upto(v, u64::MAX as nat),
            None => Some(5000),
        }
    }

    pub open spec fn streams_number(self) -> Option<nat> {
        match given(self.max_streams) {
            Some(v) => number_upto(v, u32::MAX as nat),
            None => Some(1000),
        }
    }

    pub open spec fn proto(self) -> Option<BackendProto> {
        proto_of(given_or(self.backend_proto, "http1"@))
    }

    pub open spec fn entries(self) -> Seq<Seq<char>> {
        route_entries(given_or(self.routes, ""@))
    }
}

/// The configuration that an environment makes.
pub open spec fn configures<F: Fn(&str) -> Result<SocketAddr, String>>(
    env: Environment,
    parse: F,
    config: Config,
) -> bool {
    &&& config.dev_pci@ == given_or(env.dev_pci, "03:00.1"@)
    &&& config.rep_pci@ == given_or(env.rep_pci, "94:00.1"@)
    &&& config.server_name@ == given_or(env.server_name, "DPUMesh0"@)
    &&& Some(config.cores as nat) == env.cores_number()
    &&& Some(config.backend_proto) == env.proto()
    &&& routes_outcome(parse, env.entries(), Ok(config.routes))
    &&& match given(env.default_backend) {
        Some(v) => config.default_backend matches Some(addr) && parses(parse, v, Ok(addr)),
        None => config.default_backend is None,
    }
    &&& Some(config.backend_wait as nat) == env.wait_number()
    &&& Some(config.max_streams as nat) == env.streams_number()
}

/// The routes of an environment are in order.
pub open spec fn routes_in_order<F: Fn(&str) -> Result<SocketAddr, String>>(
    env: Environment,
    parse: F,
) -> bool {
    exists|routes: Vec<(String, SocketAddr)>| #[trigger]
        routes_outcome(parse, env.entries(), Ok(routes))
}

/// The default backend of an environment is in order.
pub open spec fn default_in_order<F: Fn(&str) -> Result<SocketAddr, String>>(
    env: Environment,
    parse: F,
) -> bool {
    given(env.default_backend) matches Some(v) ==> exists|addr: SocketAddr| #[trigger]
        parses(parse, v, Ok(addr))
}

/// What is wrong with an environment: its first setting that is, in the order
/// of the cores, the protocol, the routes, the default backend, the wait and
/// the streams.
pub open spec fn misconfigures<F: Fn(&str) -> Result<SocketAddr, String>>(
    env: Environment,
    parse: F,
    error: ConfigError,
) -> bool {
    match error {
        ConfigError::Number(NumberSetting::Cores, value, _) => env.cores_number() is None && given(
            env.cores,
        ) == Some(value@),
        ConfigError::Proto(name) => {
            &&& env.cores_number() is Some
            &&& env.proto() is None
            &&& name@ == given_or(env.backend_proto, "http1"@)
        },
        ConfigError::Route(_) => {
            &&& env.cores_number() is Some
            &&& env.proto() is Some
            &&& routes_outcome(parse, env.entries(), Err(error))
        },
        ConfigError::RouteAddress(_, _) => {
            &&& env.cores_number() is Some
            &&& env.proto() is Some
            &&& routes_outcome(parse, env.entries(), Err(error))
        },
        ConfigError::DefaultBackend(value, detail) => {
            &&& env.cores_number() is Some
            &&& env.proto() is Some
            &&& routes_in_order(env, parse)
            &&& given(env.default_backend) == Some(value@)
            &&& parses(parse, value@, Err(detail))
        },
        ConfigError::Number(NumberSetting::BackendWait, value, _) => {
            &&& env.cores_number() is Some
            &&& env.proto() is Some
            &&& routes_in_order(env, parse)
            &&& default_in_order(env, parse)
            &&& env.wait_number() is None
            &&& given(env.backend_wait_ms) == Some(value@)
        },
        ConfigError::Number(NumberSetting::MaxStreams, value, _) => {
            &&& env.cores_number() is Some
            &&& env.proto() is Some
            &&& routes_in_order(env, parse)
            &&& default_in_order(env, parse)
            &&& env.wait_number() is Some
            &&& env.streams_number() is None
            &&& given(env.max_streams) == Some(value@)
        },
    }
}

fn read_default<F: Fn(&str) -> Result<SocketAddr, String>>(
    value: &Option<String>,
    parse: &F,
) -> (r: Result<Option<SocketAddr>, ConfigError>)
    requires
        forall|s: &str| parse.requires((s,)),
    ensures
        match r {
            Ok(addr) => match given(*value) {
                Some(v) => addr matches Some(a) && parses(*parse, v, Ok(a)),
                None => addr is None,
            },
            Err(error) => error matches ConfigError::DefaultBackend(v, detail) && given(*value)
                == Some(v@) && parses(*parse, v@, Err(detail)),
        },
{
    let text: &String = match value {
        Some(v) => v,
        None => return Ok(None),
    };
    if text.as_str().is_empty() {
        return Ok(None);
    }
    let given_text: &str = text.as_str();
    let parsed = parse(given_text);
    let ghost result = parsed;
    assert(parse.ensures((given_text,), result));
    assert(parses(*parse, text@, result));
    match parsed {
        Ok(addr) => Ok(Some(addr)),
        Err(detail) => Err(ConfigError::DefaultBackend(text.clone(), detail)),
    }
}

impl Config {
    /// Read the environment. `parse` reads an address.
    pub fn from_env<F: Fn(&str) -> Result<SocketAddr, String>>(env: &Environment, parse: &F) -> (r: Result<
        Config,
        ConfigError,
    >)
        requires
            forall|s: &str| parse.requires((s,)),
        ensures
            match r {
                Ok(config) => configures(*env, *parse, config),
                Err(error) => misconfigures(*env, *parse, error),
            },
    {
        let cores: usize = match &env.cores {
            Some(v) => {
                if v.as_str().is_empty() {
                    1
                } else {
                    match parse_usize(v.as_str()) {
                        Ok(n) => n,
                        Err(e) => {
                            return Err(ConfigError::Number(NumberSetting::Cores, v.clone(), e));
                        },
                    }
                }
            },
            None => 1,
        };
        let name = var(&env.backend_proto, "http1");
        let backend_proto = match parse_proto(&name) {
            Some(proto) => proto,
            None => return Err(ConfigError::Proto(name)),
        };
        let list = var(&env.routes, "");
        let routes = match parse_routes(list.as_str(), parse) {
            Ok(routes) => routes,
            Err(error) => {
                assert(routes_outcome(
                    *parse,
                    env.entries(),
                    Err::<Vec<(String, SocketAddr)>, ConfigError>(error),
                ));
                return Err(error);
            },
        };
        assert(routes_outcome(
            *parse,
            env.entries(),
            Ok::<Vec<(String, SocketAddr)>, ConfigError>(routes),
        ));
        let default_backend = match read_default(&env.default_backend, parse) {
            Ok(addr) => addr,
            Err(error) => return Err(error),
        };
        let backend_wait: u64 = match &env.backend_wait_ms {
            Some(v) => {
                if v.as_str().is_empty() {
                    5000
                } else {
                    match parse_u64(v.as_str()) {
                        Ok(n) => n,
                        Err(e) => {
                            return Err(
                                ConfigError::Number(NumberSetting::BackendWait, v.clone(), e),
                            );
                        },
                    }
                }
            },
            None => 5000,
        };
        let max_streams: u32 = match &env.max_streams {
            Some(v) => {
                if v.as_str().is_empty() {
                    1000
                } else {
                    match parse_u32(v.as_str()) {
                        Ok(n) => n,
                        Err(e) => {
                            return Err(
                                ConfigError::Number(NumberSetting::MaxStreams, v.clone(), e),
                            );
                        },
                    }
                }
            },
            None => 1000,
        };
        Ok(
            Config {
                dev_pci: var(&env.dev_pci, "03:00.1"),
                rep_pci: var(&env.rep_pci, "94:00.1"),
                server_name: var(&env.server_name, "DPUMesh0"),
                cores,
                backend_proto,
                routes,
                default_backend,
                backend_wait,
                max_streams,
            },
        )
    }

    /// Whether everything runs on one thread: the driver and the connections
    /// that it feeds then never move between threads.
    pub fn single_threaded(&self) -> (r: bool)
        ensures
            r == (self.cores <= 1),
    {
        self.cores <= 1
    }
}

impl ConfigError {
    pub open spec fn spec_message(self) -> Seq<char> {
        match self {
            ConfigError::Number(setting, value, detail) => (match setting {
                NumberSetting::Cores => "DMESH_ROUTER_CORES"@,
                NumberSetting::BackendWait => "DMESH_ROUTER_BACKEND_WAIT_MS"@,
                NumberSetting::MaxStreams => "DMESH_ROUTER_MAX_STREAMS"@,
            }) + " '"@ + value@ + "': "@ + detail@,
            ConfigError::Proto(name) =>
                "DMESH_ROUTER_BACKEND_PROTO: expected http1 or h2, got '"@ + name@ + "'"@,
            ConfigError::Route(entry) => "DMESH_ROUTER_ROUTES: '"@ + entry@
                + "' is not <authority>=<ip:port>"@,
            ConfigError::RouteAddress(entry, detail) => "DMESH_ROUTER_ROUTES: backend of '"@
                + entry@ + "': "@ + detail@,
            ConfigError::DefaultBackend(value, detail) => "DMESH_ROUTER_DEFAULT_BACKEND '"@ + value@
                + "': "@ + detail@,
        }
    }

    /// The error as text.
    pub fn message(&self) -> (r: String)
        ensures
            r@ == self.spec_message(),
    {
        let mut out = String::new();
        match self {
            ConfigError::Number(setting, value, detail) => {
                out.append(
                    match setting {
                        NumberSetting::Cores => "DMESH_ROUTER_CORES",
                        NumberSetting::BackendWait => "DMESH_ROUTER_BACKEND_WAIT_MS",
                        NumberSetting::MaxStreams => "DMESH_ROUTER_MAX_STREAMS",
                    },
                );
                out.append(" '");
                out.append(value.as_str());
                out.append("': ");
                out.append(detail.as_str());
            },
            ConfigError::Proto(name) => {
                out.append("DMESH_ROUTER_BACKEND_PROTO: expected http1 or h2, got '");
                out.append(name.as_str());
                out.append("'");
            },
            ConfigError::Route(entry) => {
                out.append("DMESH_ROUTER_ROUTES: '");
                out.append(entry.as_str());
                out.append("' is not <authority>=<ip:port>");
            },
            ConfigError::RouteAddress(entry, detail) => {
                out.append("DMESH_ROUTER_ROUTES: backend of '");
                out.append(entry.as_str());
                out.append("': ");
                out.append(detail.as_str());
            },
            ConfigError::DefaultBackend(value, detail) => {
                out.append("DMESH_ROUTER_DEFAULT_BACKEND '");
                out.append(value.as_str());
                out.append("': ");
                out.append(detail.as_str());
            },
        }
        assert(out@ =~= self.spec_message());
        out
    }
}

/// The last entry of an authority is the one that counts.
proof fn lookup_is(routes: Seq<(String, SocketAddr)>, authority: Seq<char>) -> (p: int)
    ensures
        lookup(routes, authority) is Some ==> 0 <= p < routes.len() && routes[p].0@ == authority
            && routes[p].1 == lookup(routes, authority)->0 && forall|q: int|
            p < q < routes.len() ==> (#[trigger] routes[q]).0@ != authority,
        lookup(routes, authority) is None ==> forall|q: int|
            0 <= q < routes.len() ==> (#[trigger] routes[q]).0@ != authority,
    decreases routes.len(),
{
    if routes.len() == 0 {
        0
    } else if routes.last().0@ == authority {
        routes.len() - 1
    } else {
        let rest = routes.drop_last();
        let p = lookup_is(rest, authority);
        assert forall|q: int| 0 <= q < rest.len() implies rest[q] == #[trigger] routes[q] by {}
        p
    }
}

/// `host` is what stands of `authority` before its port: through the bracket
/// that closes an address in brackets, or else before the first colon.
pub open spec fn is_host(authority: Seq<char>, host: Seq<char>) -> bool {
    let n = host.len() as int;
    &&& n <= authority.len()
    &&& host == authority.take(n)
    &&& if authority.len() > 0 && authority[0] == '[' && authority.contains(']') {
        n > 0 && host[n - 1] == ']' && forall|k: int| 0 <= k < n - 1 ==> #[trigger] host[k] != ']'
    } else {
        (n == authority.len() || authority[n] == ':') && forall|k: int|
            0 <= k < n ==> #[trigger] host[k] != ':'
    }
}

proof fn host_is(authority: Seq<char>, host: Seq<char>)
    requires
        is_host(authority, host),
    ensures
        host_of(authority) == host,
{
    let n = host.len() as int;
    crate::split::first_index_bounds(authority, ']');
    assert forall|k: int| 0 <= k < n implies #[trigger] host[k] == authority[k] by {}
    if authority.len() > 0 && authority[0] == '[' && authority.contains(']') {
        assert forall|k: int| 0 <= k < n - 1 implies authority[k] != ']' by {
            assert(host[k] != ']');
        }
        assert(authority[n - 1] == ']') by {
            assert(host[n - 1] == authority[n - 1]);
        }
        crate::split::first_index_is(authority, ']', n - 1);
    } else {
        if authority.len() > 0 && authority[0] == '[' && first_index(authority, ']')
            < authority.len() {
            crate::split::first_index_at(authority, ']');
            assert(authority.contains(']'));
        }
        assert forall|k: int| 0 <= k < n implies authority[k] != ':' by {
            assert(host[k] != ':');
        }
        crate::split::first_index_is(authority, ':', n);
    }
}

/// A request is routed by the last route of its whole authority; where there is
/// none, by the last route of its host without the port, an address in brackets
/// being the host with its brackets; and where there is none either, or no
/// authority, the routes name no backend.
pub proof fn a_route_is_by_authority_or_host(
    config: Config,
    authority: &str,
    host: Seq<char>,
    p: int,
    r: Option<SocketAddr>,
)
    requires
        call_ensures(Config::route, (&config, Some(authority)), r),
        is_host(authority@, host),
    ensures
        ({
            let routes = config.routes@;
            let unknown = forall|q: int|
                0 <= q < routes.len() ==> (#[trigger] routes[q]).0@ != authority@;
            &&& 0 <= p < routes.len() && routes[p].0@ == authority@ && (forall|q: int|
                p < q < routes.len() ==> (#[trigger] routes[q]).0@ != authority@) ==> r == Some(
                routes[p].1,
            )
            &&& unknown && 0 <= p < routes.len() && routes[p].0@ == host && (forall|q: int|
                p < q < routes.len() ==> (#[trigger] routes[q]).0@ != host) ==> r == Some(
                routes[p].1,
            )
            &&& unknown && (forall|q: int|
                0 <= q < routes.len() ==> (#[trigger] routes[q]).0@ != host) ==> r is None
        }),
        forall|none: Option<SocketAddr>| #[trigger]
            call_ensures(Config::route, (&config, None::<&str>), none) ==> none is None,
{
    let routes = config.routes@;
    host_is(authority@, host);
    let a = lookup_is(routes, authority@);
    let h = lookup_is(routes, host);
    if 0 <= p < routes.len() {
        assert(routes[p].0@ == routes[p].0@);
    }
    if lookup(routes, authority@) is Some {
        assert(routes[a].0@ == authority@);
    }
    if lookup(routes, host) is Some {
        assert(routes[h].0@ == host);
    }
}

/// Every authority has a host.
pub proof fn an_authority_has_a_host(authority: Seq<char>)
    ensures
        is_host(authority, host_of(authority)),
{
    crate::split::first_index_bounds(authority, ']');
    crate::split::first_index_bounds(authority, ':');
    crate::split::before_the_first(authority, ']');
    crate::split::before_the_first(authority, ':');
    let host = host_of(authority);
    if is_bracketed(authority) {
        crate::split::first_index_at(authority, ']');
        assert(authority.contains(']'));
    } else {
        if authority.len() > 0 && authority[0] == '[' && authority.contains(']') {
            let k = choose|k: int| 0 <= k < authority.len() && authority[k] == ']';
            assert(authority[k] != ']');
        }
        if first_index(authority, ':') < authority.len() {
            crate::split::first_index_at(authority, ':');
        }
    }
    assert forall|k: int| 0 <= k < host.len() implies #[trigger] host[k] == authority[k] by {}
    assert(host =~= authority.take(host.len() as int));
}

/// Three names stand for each protocol, in lower case, and no other for either.
pub proof fn a_protocol_has_its_names(name: String, r: Option<BackendProto>)
    requires
        call_ensures(parse_proto, (&name,), r),
    ensures
        r == Some(BackendProto::Http1) <==> name@ == "http1"@ || name@ == "h1"@ || name@
            == "http/1.1"@,
        r == Some(BackendProto::H2) <==> name@ == "h2"@ || name@ == "http2"@ || name@ == "h2c"@,
{
    reveal_strlit("http1");
    reveal_strlit("h1");
    reveal_strlit("http/1.1");
    reveal_strlit("h2");
    reveal_strlit("http2");
    reveal_strlit("h2c");
    assert("http1"@[4] == '1' && "http2"@[4] == '2');
    assert("h1"@[1] == '1' && "h2"@[1] == '2');
    assert("http1"@.len() == 5 && "http2"@.len() == 5 && "http/1.1"@.len() == 8);
    assert("h1"@.len() == 2 && "h2"@.len() == 2 && "h2c"@.len() == 3);
}

proof fn nonblank_are(parts: Seq<Seq<char>>) -> (at: Seq<int>)
    ensures
        at.len() == nonblank(parts).len(),
        forall|i: int, j: int| 0 <= i < j < at.len() ==> at[i] < at[j],
        forall|k: int|
            #![trigger at[k]]
            0 <= k < at.len() ==> 0 <= at[k] < parts.len() && nonblank(parts)[k] == trim_text(
                parts[at[k]],
            ) && nonblank(parts)[k].len() > 0,
        forall|i: int|
            #![trigger parts[i]]
            0 <= i < parts.len() && trim_text(parts[i]).len() > 0 ==> at.contains(i),
    decreases parts.len(),
{
    if parts.len() == 0 {
        Seq::empty()
    } else {
        let rest = parts.drop_last();
        let before = nonblank_are(rest);
        let n = parts.len() - 1;
        assert forall|i: int| 0 <= i < n implies rest[i] == #[trigger] parts[i] by {}
        if nonblank(parts).len() == nonblank(rest).len() {
            before
        } else {
            let at = before.push(n);
            assert(at[before.len() as int] == n);
            assert forall|i: int|
                #![trigger parts[i]]
                0 <= i < n && before.contains(i) implies at.contains(i) by {
                let k = choose|k: int| 0 <= k < before.len() && before[k] == i;
                assert(at[k] == i);
            }
            at
        }
    }
}

proof fn routes_stand<F: Fn(&str) -> Result<SocketAddr, String>>(
    list: Seq<char>,
    parse: F,
    routes: Vec<(String, SocketAddr)>,
) -> (at: Seq<int>)
    requires
        routes_outcome(
            parse,
            route_entries(list),
            Ok::<Vec<(String, SocketAddr)>, ConfigError>(routes),
        ),
    ensures
        at.len() == routes@.len(),
        forall|i: int, j: int| 0 <= i < j < at.len() ==> at[i] < at[j],
        forall|i: int|
            #![trigger pieces(list, ',')[i]]
            0 <= i < pieces(list, ',').len() && trim_text(pieces(list, ',')[i]).len() > 0
                ==> at.contains(i),
        forall|k: int|
            #![trigger at[k]]
            0 <= k < at.len() ==> {
                let entry = trim_text(pieces(list, ',')[at[k]]);
                &&& 0 <= at[k] < pieces(list, ',').len()
                &&& exists|name: Seq<char>, address: Seq<char>, text: &str|
                    #![trigger name.push('=') + address, parse.ensures((text,), Ok(routes@[k].1))]
                    entry == name.push('=') + address && !name.contains('=') && routes@[k].0@
                        == trim_text(name) && text@ == trim_text(address) && parse.ensures(
                        (text,),
                        Ok(routes@[k].1),
                    )
            },
{
    let parts = pieces(list, ',');
    let at = nonblank_are(parts);
    assert forall|k: int|
        #![trigger at[k]]
        0 <= k < at.len() implies {
        let entry = trim_text(parts[at[k]]);
        exists|name: Seq<char>, address: Seq<char>, text: &str|
            #![trigger name.push('=') + address, parse.ensures((text,), Ok(routes@[k].1))]
            entry == name.push('=') + address && !name.contains('=') && routes@[k].0@ == trim_text(
                name,
            ) && text@ == trim_text(address) && parse.ensures((text,), Ok(routes@[k].1))
    } by {
        let entry = trim_text(parts[at[k]]);
        assert(names_route(parse, route_entries(list)[k], routes@[k]));
        let i = first_index(entry, '=');
        crate::split::first_index_bounds(entry, '=');
        crate::split::first_index_at(entry, '=');
        crate::split::before_the_first(entry, '=');
        let name = entry.take(i);
        let address = entry.skip(i + 1);
        assert(entry =~= name.push('=') + address);
        if name.contains('=') {
            let j = choose|j: int| 0 <= j < name.len() && name[j] == '=';
            assert(entry[j] == '=');
        }
        let text = choose|s: &str|
            s@ == route_address(entry) && #[trigger] parse.ensures((s,), Ok(routes@[k].1));
        assert(parse.ensures((text,), Ok(routes@[k].1)));
        assert(entry == name.push('=') + address && text@ == trim_text(address));
    }
    at
}

/// A list of routes that is read has one route for each entry between commas
/// that is not blank, in the order of the list, and no other: before the first
/// equals sign stands its authority, and behind it what its address was read
/// from, both without the white space around them. `at` says which piece of the
/// list each route is.
pub proof fn routes_are_read_from_their_entries<F: Fn(&str) -> Result<SocketAddr, String>>(
    list: &str,
    parse: F,
    routes: Vec<(String, SocketAddr)>,
) -> (at: Seq<int>)
    requires
        call_ensures(
            parse_routes::<F>,
            (list, &parse),
            Ok::<Vec<(String, SocketAddr)>, ConfigError>(routes),
        ),
    ensures
        at.len() == routes@.len(),
        forall|i: int, j: int| 0 <= i < j < at.len() ==> at[i] < at[j],
        forall|i: int|
            #![trigger pieces(list@, ',')[i]]
            0 <= i < pieces(list@, ',').len() && trim_text(pieces(list@, ',')[i]).len() > 0
                ==> at.contains(i),
        forall|k: int|
            #![trigger at[k]]
            0 <= k < at.len() ==> {
                let entry = trim_text(pieces(list@, ',')[at[k]]);
                &&& 0 <= at[k] < pieces(list@, ',').len()
                &&& exists|name: Seq<char>, address: Seq<char>, text: &str|
                    #![trigger name.push('=') + address, parse.ensures((text,), Ok(routes@[k].1))]
                    entry == name.push('=') + address && !name.contains('=') && routes@[k].0@
                        == trim_text(name) && text@ == trim_text(address) && parse.ensures(
                        (text,),
                        Ok(routes@[k].1),
                    )
            },
{
    routes_stand(list@, parse, routes)
}

/// The routes of a configuration are read from the list that is set for them in
/// the same way.
pub proof fn configured_routes_are_read_from_their_entries<F: Fn(&str) -> Result<SocketAddr, String>>(
    env: Environment,
    parse: F,
    config: Config,
) -> (at: Seq<int>)
    requires
        call_ensures(
            Config::from_env::<F>,
            (&env, &parse),
            Ok::<Config, ConfigError>(config),
        ),
        env.routes is Some,
        env.routes->0@.len() > 0,
    ensures
        at.len() == config.routes@.len(),
        forall|i: int, j: int| 0 <= i < j < at.len() ==> at[i] < at[j],
        forall|i: int|
            #![trigger pieces(env.routes->0@, ',')[i]]
            0 <= i < pieces(env.routes->0@, ',').len() && trim_text(pieces(env.routes->0@, ',')[i]).len() > 0
                ==> at.contains(i),
        forall|k: int|
            #![trigger at[k]]
            0 <= k < at.len() ==> {
                let entry = trim_text(pieces(env.routes->0@, ',')[at[k]]);
                &&& 0 <= at[k] < pieces(env.routes->0@, ',').len()
                &&& exists|name: Seq<char>, address: Seq<char>, text: &str|
                    #![trigger name.push('=') + address, parse.ensures((text,), Ok(config.routes@[k].1))]
                    entry == name.push('=') + address && !name.contains('=') && config.routes@[k].0@
                        == trim_text(name) && text@ == trim_text(address) && parse.ensures(
                        (text,),
                        Ok(config.routes@[k].1),
                    )
            },
{
    routes_stand(env.routes->0@, parse, config.routes)
}

/// A list of routes is refused for its first entry that is no route: one without
/// an equals sign as it stands, or one whose address is none, with what is wrong
/// with it. Every entry before it is a route.
pub proof fn routes_are_refused_by_the_first_wrong_entry<
    F: Fn(&str) -> Result<SocketAddr, String>,
>(list: &str, parse: F, error: ConfigError) -> (at: Seq<int>)
    requires
        call_ensures(
            parse_routes::<F>,
            (list, &parse),
            Err::<Vec<(String, SocketAddr)>, ConfigError>(error),
        ),
    ensures
        at.len() > 0,
        forall|k: int|
            #![trigger at[k]]
            0 <= k < at.len() ==> 0 <= at[k] < pieces(list@, ',').len() && trim_text(
                pieces(list@, ',')[at[k]],
            ).len() > 0 && (k < at.len() - 1 ==> trim_text(pieces(list@, ',')[at[k]]).contains('=')),
        forall|i: int|
            #![trigger pieces(list@, ',')[i]]
            0 <= i < at.last() && trim_text(pieces(list@, ',')[i]).len() > 0 ==> at.contains(i),
        ({
            let entry = trim_text(pieces(list@, ',')[at.last()]);
            match error {
                ConfigError::Route(text) => text@ == entry && !entry.contains('='),
                ConfigError::RouteAddress(text, detail) => text@ == entry && exists|
                    name: Seq<char>,
                    address: Seq<char>,
                    given: &str,
                |
                    #![trigger name.push('=') + address, parse.ensures((given,), Err(detail))]
                    entry == name.push('=') + address && !name.contains('=') && given@ == trim_text(
                        address,
                    ) && parse.ensures((given,), Err(detail)),
                _ => false,
            }
        }),
{
    let parts = pieces(list@, ',');
    let entries = route_entries(list@);
    let all = nonblank_are(parts);
    let routes = choose|routes: Seq<(String, SocketAddr)>|
        #![trigger routes_so_far(parse, entries, routes)]
        routes.len() < entries.len() && routes_so_far(parse, entries, routes) && bad_route(
            parse,
            entries[routes.len() as int],
            error,
        );
    let n = routes.len() as int;
    let at = all.take(n + 1);
    let last = all[n];
    assert(at.last() == last);
    let entry = trim_text(parts[last]);
    assert(entries[n] == entry);
    crate::split::first_index_bounds(entry, '=');
    crate::split::before_the_first(entry, '=');
    if is_route(entry) {
        crate::split::first_index_at(entry, '=');
        let i = first_index(entry, '=');
        let name = entry.take(i);
        let address = entry.skip(i + 1);
        assert(entry =~= name.push('=') + address);
        if name.contains('=') {
            let j = choose|j: int| 0 <= j < name.len() && name[j] == '=';
            assert(entry[j] == '=');
        }
        if let ConfigError::RouteAddress(text, detail) = error {
            let given = choose|s: &str|
                s@ == route_address(entry) && #[trigger] parse.ensures((s,), Err(detail));
            assert(parse.ensures((given,), Err(detail)));
            assert(entry == name.push('=') + address);
        }
    } else if entry.contains('=') {
        let j = choose|j: int| 0 <= j < entry.len() && entry[j] == '=';
        assert(entry[j] != '=');
    }
    assert forall|k: int|
        #![trigger at[k]]
        0 <= k < at.len() implies 0 <= at[k] < parts.len() && trim_text(parts[at[k]]).len() > 0 && (
    k < at.len() - 1 ==> trim_text(parts[at[k]]).contains('=')) by {
        assert(at[k] == all[k]);
        if k < n {
            assert(names_route(parse, entries[k], routes[k]));
            let before = trim_text(parts[at[k]]);
            crate::split::first_index_bounds(before, '=');
            crate::split::first_index_at(before, '=');
            assert(before.contains('='));
        }
    }
    assert forall|i: int|
        #![trigger parts[i]]
        0 <= i < at.last() && trim_text(parts[i]).len() > 0 implies at.contains(i) by {
        assert(all.contains(i)) by {
            assert(0 <= i < parts.len());
        }
        let k = choose|k: int| 0 <= k < all.len() && all[k] == i;
        assert(k < n + 1) by {
            if k > n {
                assert(all[n] < all[k]);
            }
        }
        assert(at[k] == i);
    }
    at
}

/// What is not set, or is empty, has its default: the device, the representor
/// and the name of the deployment, one core, HTTP/1.1, no route, no default
/// backend, five seconds of waiting and a thousand streams. What is set is taken
/// as it is: a text as it stands, a number as what it writes.
pub proof fn an_environment_configures<F: Fn(&str) -> Result<SocketAddr, String>>(
    env: Environment,
    parse: F,
    config: Config,
)
    requires
        call_ensures(
            Config::from_env::<F>,
            (&env, &parse),
            Ok::<Config, ConfigError>(config),
        ),
    ensures
        ({
            let set = |value: Option<String>| value is Some && value->0@.len() > 0;
            &&& config.dev_pci@ == if set(env.dev_pci) {
                env.dev_pci->0@
            } else {
                "03:00.1"@
            }
            &&& config.rep_pci@ == if set(env.rep_pci) {
                env.rep_pci->0@
            } else {
                "94:00.1"@
            }
            &&& config.server_name@ == if set(env.server_name) {
                env.server_name->0@
            } else {
                "DPUMesh0"@
            }
            &&& !set(env.cores) ==> config.cores == 1
            &&& set(env.cores) ==> number_of(env.cores->0@) == Some(config.cores as nat)
            &&& !set(env.backend_proto) ==> config.backend_proto == BackendProto::Http1
            &&& set(env.backend_proto) && config.backend_proto == BackendProto::Http1 ==> {
                let name = env.backend_proto->0@;
                name == "http1"@ || name == "h1"@ || name == "http/1.1"@
            }
            &&& set(env.backend_proto) && config.backend_proto == BackendProto::H2 ==> {
                let name = env.backend_proto->0@;
                name == "h2"@ || name == "http2"@ || name == "h2c"@
            }
            &&& !set(env.default_backend) ==> config.default_backend is None
            &&& set(env.default_backend) ==> config.default_backend is Some && exists|text: &str|
                text@ == env.default_backend->0@ && #[trigger] parse.ensures(
                    (text,),
                    Ok(config.default_backend->0),
                )
            &&& !set(env.backend_wait_ms) ==> config.backend_wait == 5000
            &&& set(env.backend_wait_ms) ==> number_of(env.backend_wait_ms->0@) == Some(
                config.backend_wait as nat,
            )
            &&& !set(env.max_streams) ==> config.max_streams == 1000
            &&& set(env.max_streams) ==> number_of(env.max_streams->0@) == Some(
                config.max_streams as nat,
            )
            &&& !set(env.routes) ==> config.routes@.len() == 0
        }),
{
    reveal_strlit("http1");
    reveal_strlit("h1");
    reveal_strlit("http/1.1");
    reveal_strlit("h2");
    reveal_strlit("http2");
    reveal_strlit("h2c");
    reveal_strlit("");
    let routes = given_or(env.routes, ""@);
    if !(env.routes is Some && env.routes->0@.len() > 0) {
        crate::split::first_index_bounds(routes, ',');
        assert(pieces(routes, ',') =~= seq![routes]);
        assert(pieces(routes, ',').drop_last() =~= Seq::empty());
        assert(pieces(routes, ',').last() == routes);
        assert(trim_text(routes) == routes);
        assert(nonblank(pieces(routes, ',')) =~= nonblank(pieces(routes, ',').drop_last()));
        assert(nonblank(pieces(routes, ',').drop_last()).len() == 0);
    }
    if env.default_backend is Some && env.default_backend->0@.len() > 0 {
        let text = choose|s: &str|
            s@ == env.default_backend->0@ && #[trigger] parse.ensures(
                (s,),
                Ok(config.default_backend->0),
            );
        assert(parse.ensures((text,), Ok(config.default_backend->0)));
    }
}

/// A number that is no number, or too large, is refused under the name of its
/// setting with the value that it has; so is a protocol that has no name, and a
/// default backend that is no address.
pub proof fn a_wrong_setting_is_named<F: Fn(&str) -> Result<SocketAddr, String>>(
    env: Environment,
    parse: F,
    error: ConfigError,
)
    requires
        call_ensures(
            Config::from_env::<F>,
            (&env, &parse),
            Err::<Config, ConfigError>(error),
        ),
    ensures
        match error {
            ConfigError::Number(NumberSetting::Cores, value, _) => env.cores is Some && env.cores->0@
                == value@ && value@.len() > 0 && !(number_of(value@) matches Some(n) && n
                <= usize::MAX),
            ConfigError::Number(NumberSetting::BackendWait, value, _) => env.backend_wait_ms is Some
                && env.backend_wait_ms->0@ == value@ && value@.len() > 0 && !(number_of(
                value@,
            ) matches Some(n) && n <= 0xffff_ffff_ffff_ffff),
            ConfigError::Number(NumberSetting::MaxStreams, value, _) => env.max_streams is Some
                && env.max_streams->0@ == value@ && value@.len() > 0 && !(number_of(
                value@,
            ) matches Some(n) && n <= 0xffff_ffff),
            ConfigError::Proto(name) => env.backend_proto is Some && env.backend_proto->0@ == name@
                && name@ != "http1"@ && name@ != "h1"@ && name@ != "http/1.1"@ && name@ != "h2"@
                && name@ != "http2"@ && name@ != "h2c"@,
            ConfigError::DefaultBackend(value, detail) => env.default_backend is Some
                && env.default_backend->0@ == value@ && value@.len() > 0 && exists|text: &str|
                text@ == value@ && #[trigger] parse.ensures((text,), Err(detail)),
            ConfigError::Route(_) => env.routes is Some && env.routes->0@.len() > 0,
            ConfigError::RouteAddress(_, _) => env.routes is Some && env.routes->0@.len() > 0,
        },
{
    reveal_strlit("");
    let routes = given_or(env.routes, ""@);
    if !(env.routes is Some && env.routes->0@.len() > 0) {
        crate::split::first_index_bounds(routes, ',');
        assert(pieces(routes, ',') =~= seq![routes]);
        assert(pieces(routes, ',').drop_last() =~= Seq::empty());
        assert(pieces(routes, ',').last() == routes);
        assert(trim_text(routes) == routes);
        assert(nonblank(pieces(routes, ',')) =~= nonblank(pieces(routes, ',').drop_last()));
        assert(nonblank(pieces(routes, ',').drop_last()).len() == 0);
    }
}

/// Settings are refused in an order: where the cores are wrong nothing else is
/// said, then the protocol, the routes, the default backend, the wait, and last
/// the streams.
pub proof fn the_first_wrong_setting_is_told<F: Fn(&str) -> Result<SocketAddr, String>>(
    env: Environment,
    parse: F,
    r: Result<Config, ConfigError>,
)
    requires
        call_ensures(Config::from_env::<F>, (&env, &parse), r),
    ensures
        env.cores is Some && env.cores->0@.len() > 0 && number_of(env.cores->0@) is None ==> (
        r matches Err(ConfigError::Number(NumberSetting::Cores, value, _)) && value@
            == env.cores->0@),
        (env.cores is None || env.cores->0@.len() == 0) && env.backend_proto is Some
            && env.backend_proto->0@.len() > 0 && env.backend_proto->0@ != "http1"@
            && env.backend_proto->0@ != "h1"@ && env.backend_proto->0@ != "http/1.1"@
            && env.backend_proto->0@ != "h2"@ && env.backend_proto->0@ != "http2"@
            && env.backend_proto->0@ != "h2c"@ ==> (r matches Err(ConfigError::Proto(name)) && name@
            == env.backend_proto->0@),
        r is Ok && env.backend_wait_ms is Some && env.backend_wait_ms->0@.len() > 0 ==> number_of(
            env.backend_wait_ms->0@,
        ) is Some,
        r is Ok && env.max_streams is Some && env.max_streams->0@.len() > 0 ==> number_of(
            env.max_streams->0@,
        ) is Some,
        r matches Err(ConfigError::Number(NumberSetting::MaxStreams, _, _)) ==> (
        env.backend_wait_ms is None || env.backend_wait_ms->0@.len() == 0 || number_of(
            env.backend_wait_ms->0@,
        ) is Some),
{
}

/// A number is one or more digits, behind one plus sign or none, and one more
/// digit makes it ten times as large, and the digit more.
pub proof fn a_number_is_its_digits(digits: Seq<char>, digit: char)
    requires
        '0' <= digit <= '9',
    ensures
        number(Seq::empty()) == 0,
        number(digits.push(digit)) == number(digits) * 10 + (digit as nat - '0' as nat),
        number_of(digits) is Some ==> number_of(digits.push(digit)) is Some,
        number_of(seq![digit]) == Some((digit as nat - '0' as nat) as nat),
        number_of(Seq::empty()) is None,
        is_number(digits) ==> number_of(digits) == Some(number(digits)) && number_of(
            seq!['+'] + digits,
        ) == number_of(digits),
{
    assert(digits.push(digit).drop_last() =~= digits);
    assert(seq![digit].drop_last() =~= Seq::empty());
    assert(number(seq![digit]) == number(seq![digit].drop_last()) * 10 + (digit as nat - '0' as nat));
    let signed = seq!['+'] + digits;
    assert(signed.skip(1) =~= digits);
    let text = digits.push(digit);
    if number_of(digits) is Some {
        let inner = if digits.len() > 0 && digits[0] == '+' {
            digits.skip(1)
        } else {
            digits
        };
        let outer = if text.len() > 0 && text[0] == '+' {
            text.skip(1)
        } else {
            text
        };
        assert(outer =~= inner.push(digit));
        assert forall|i: int| 0 <= i < outer.len() implies '0' <= #[trigger] outer[i] <= '9' by {
            if i < inner.len() {
                assert(inner[i] == outer[i]);
            }
        }
    }
    assert(is_number(digits) ==> digits[0] != '+');
}

/// Everything runs on one thread exactly where at most one core is configured.
pub proof fn one_core_is_one_thread(config: Config, r: bool)
    requires
        call_ensures(Config::single_threaded, (&config,), r),
    ensures
        r <==> config.cores == 0 || config.cores == 1,
{
}

/// An error names its setting as the environment does, and quotes what was set.
pub proof fn an_error_names_its_setting(error: ConfigError, r: String)
    requires
        call_ensures(ConfigError::message, (&error,), r),
    ensures
        match error {
            ConfigError::Number(NumberSetting::Cores, value, detail) => r@
                == "DMESH_ROUTER_CORES"@ + " '"@ + value@ + "': "@ + detail@,
            ConfigError::Number(NumberSetting::BackendWait, value, detail) => r@
                == "DMESH_ROUTER_BACKEND_WAIT_MS"@ + " '"@ + value@ + "': "@ + detail@,
            ConfigError::Number(NumberSetting::MaxStreams, value, detail) => r@
                == "DMESH_ROUTER_MAX_STREAMS"@ + " '"@ + value@ + "': "@ + detail@,
            ConfigError::Proto(name) => r@
                == "DMESH_ROUTER_BACKEND_PROTO: expected http1 or h2, got '"@ + name@ + "'"@,
            ConfigError::Route(entry) => r@ == "DMESH_ROUTER_ROUTES: '"@ + entry@
                + "' is not <authority>=<ip:port>"@,
            ConfigError::RouteAddress(entry, detail) => r@ == "DMESH_ROUTER_ROUTES: backend of '"@
                + entry@ + "': "@ + detail@,
            ConfigError::DefaultBackend(value, detail) => r@ == "DMESH_ROUTER_DEFAULT_BACKEND '"@
                + value@ + "': "@ + detail@,
        },
{
}

/// What is told is the first wrong setting: where the default backend, the wait
/// or the streams are told, the protocol has a name and every route its equals
/// sign; where the wait or the streams are, the default backend was read; and a
/// wait that is too large, or no number, is told where nothing before it is set.
pub proof fn settings_are_told_in_order<F: Fn(&str) -> Result<SocketAddr, String>>(
    env: Environment,
    parse: F,
    r: Result<Config, ConfigError>,
)
    requires
        call_ensures(Config::from_env::<F>, (&env, &parse), r),
    ensures
        ({
            let set = |value: Option<String>| value is Some && value->0@.len() > 0;
            let name = env.backend_proto->0@;
            let list = env.routes->0@;
            &&& r matches Err(error) ==> {
                let past_routes = error is DefaultBackend || (error matches ConfigError::Number(
                    setting,
                    _,
                    _,
                ) && setting != NumberSetting::Cores);
                let past_default = error matches ConfigError::Number(setting, _, _) && setting
                    != NumberSetting::Cores;
                &&& !(error matches ConfigError::Number(NumberSetting::Cores, _, _)) && set(
                    env.cores,
                ) ==> number_of(env.cores->0@) is Some
                &&& (past_routes || error is Route || error is RouteAddress) && set(
                    env.backend_proto,
                ) ==> name == "http1"@ || name == "h1"@ || name == "http/1.1"@ || name == "h2"@
                    || name == "http2"@ || name == "h2c"@
                &&& past_routes && set(env.routes) ==> forall|i: int|
                    #![trigger pieces(list, ',')[i]]
                    0 <= i < pieces(list, ',').len() && trim_text(pieces(list, ',')[i]).len() > 0
                        ==> trim_text(pieces(list, ',')[i]).contains('=')
                &&& past_default && set(env.default_backend) ==> exists|text: &str, addr: SocketAddr|
                    text@ == env.default_backend->0@ && #[trigger] parse.ensures((text,), Ok(addr))
            }
            &&& !set(env.cores) && !set(env.backend_proto) && !set(env.routes) && !set(
                env.default_backend,
            ) && set(env.backend_wait_ms) && !(number_of(env.backend_wait_ms->0@) matches Some(n)
                && n <= 0xffff_ffff_ffff_ffff) ==> (r matches Err(
                ConfigError::Number(NumberSetting::BackendWait, value, _),
            ) && value@ == env.backend_wait_ms->0@)
            &&& !set(env.cores) && !set(env.backend_proto) && !set(env.routes) && !set(
                env.default_backend,
            ) && !set(env.backend_wait_ms) && set(env.max_streams) && !(number_of(
                env.max_streams->0@,
            ) matches Some(n) && n <= 0xffff_ffff) ==> (r matches Err(
                ConfigError::Number(NumberSetting::MaxStreams, value, _),
            ) && value@ == env.max_streams->0@)
        }),
{
    reveal_strlit("");
    let routes = given_or(env.routes, ""@);
    let no_routes = !(env.routes is Some && env.routes->0@.len() > 0);
    if no_routes {
        crate::split::first_index_bounds(routes, ',');
        assert(pieces(routes, ',') =~= seq![routes]);
        assert(pieces(routes, ',').drop_last() =~= Seq::empty());
        assert(pieces(routes, ',').last() == routes);
        assert(trim_text(routes) == routes);
        assert(nonblank(pieces(routes, ',')) =~= nonblank(pieces(routes, ',').drop_last()));
        assert(nonblank(pieces(routes, ',').drop_last()).len() == 0);
    }
    if let Err(error) = r {
        let past_default = error matches ConfigError::Number(setting, _, _) && setting
            != NumberSetting::Cores;
        if (error is DefaultBackend || past_default) && !no_routes {
            let parts = pieces(routes, ',');
            let at = nonblank_are(parts);
            let read = choose|read: Vec<(String, SocketAddr)>| #[trigger]
                routes_outcome(parse, env.entries(), Ok(read));
            assert forall|i: int|
                #![trigger parts[i]]
                0 <= i < parts.len() && trim_text(parts[i]).len() > 0 implies trim_text(
                parts[i],
            ).contains('=') by {
                assert(at.contains(i));
                let k = choose|k: int| 0 <= k < at.len() && at[k] == i;
                assert(names_route(parse, env.entries()[k], read@[k]));
                let entry = trim_text(parts[i]);
                assert(env.entries()[k] == entry);
                crate::split::first_index_bounds(entry, '=');
                crate::split::first_index_at(entry, '=');
                assert(entry.contains('='));
            }
        }
        if past_default && env.default_backend is Some && env.default_backend->0@.len() > 0 {
            let v = env.default_backend->0@;
            let addr = choose|addr: SocketAddr| #[trigger] parses(parse, v, Ok(addr));
            let text = choose|s: &str| s@ == v && #[trigger] parse.ensures((s,), Ok(addr));
            assert(parse.ensures((text,), Ok(addr)));
        }
    }
}

/// A route that the environment's list is refused for is one of its entries, as
/// it stands without the white space around it: without an equals sign, or with
/// an address that was refused.
pub proof fn a_wrong_route_is_quoted<F: Fn(&str) -> Result<SocketAddr, String>>(
    env: Environment,
    parse: F,
    error: ConfigError,
) -> (at: int)
    requires
        call_ensures(
            Config::from_env::<F>,
            (&env, &parse),
            Err::<Config, ConfigError>(error),
        ),
        error is Route || error is RouteAddress,
    ensures
        ({
            let parts = pieces(env.routes->0@, ',');
            let entry = trim_text(parts[at]);
            &&& 0 <= at < parts.len()
            &&& entry.len() > 0
            &&& error matches ConfigError::Route(text) ==> text@ == entry && !entry.contains('=')
            &&& error matches ConfigError::RouteAddress(text, detail) ==> text@ == entry
                && entry.contains('=') && exists|given: &str| #[trigger]
                parse.ensures((given,), Err(detail))
        }),
{
    a_wrong_setting_is_named(env, parse, error);
    let list = env.routes->0@;
    let parts = pieces(list, ',');
    let entries = route_entries(list);
    let all = nonblank_are(parts);
    let routes = choose|routes: Seq<(String, SocketAddr)>|
        #![trigger routes_so_far(parse, entries, routes)]
        routes.len() < entries.len() && routes_so_far(parse, entries, routes) && bad_route(
            parse,
            entries[routes.len() as int],
            error,
        );
    let at = all[routes.len() as int];
    let entry = trim_text(parts[at]);
    crate::split::first_index_bounds(entry, '=');
    crate::split::before_the_first(entry, '=');
    if is_route(entry) {
        crate::split::first_index_at(entry, '=');
        assert(entry.contains('='));
        if let ConfigError::RouteAddress(text, detail) = error {
            let given = choose|s: &str|
                s@ == route_address(entry) && #[trigger] parse.ensures((s,), Err(detail));
            assert(parse.ensures((given,), Err(detail)));
        }
    } else if entry.contains('=') {
        let j = choose|j: int| 0 <= j < entry.len() && entry[j] == '=';
        assert(entry[j] != '=');
    }
    at
}

} // verus!
