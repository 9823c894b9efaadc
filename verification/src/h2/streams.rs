//! The send side of a connection's streams, and the requests that wait for a
//! response.
use vstd::prelude::*;

use http::HeaderMap;

use crate::h2::body::{SendBody, SendBodyPool};
use crate::h2::error::{Error, Kind, Reason, INTERNAL_ERROR, REFUSED_STREAM};
use crate::h2::fields::{
    fill_request_nv, fill_response_nv, nv_pairs, orders_its_values, request_pseudo, sendable, Nv,
};
use crate::h2::idmap::{new_map, IdMap};
use crate::headers::{
    authority_of, header_order, header_values, spec_authority_of, value_text,
};
use crate::text::utf8;

verus! {

/// The bodies that a connection sends, by stream. `B` is the stack's body.
#[derive(Debug)]
pub struct Outs<B> {
    pub sending: IdMap<SendBody<B>>,
    pub pool: SendBodyPool<B>,
}

/// What is submitted for a response.
#[derive(Debug)]
pub enum ResponseSubmit {
    /// Reset the stream with this code.
    Reset(u32),
    /// The header block, and whether a body follows.
    Head(Vec<Nv>, bool),
}

/// A response of the stack: its status in text, its headers and its body. A
/// body that is at its end already is none.
#[derive(Debug)]
pub struct Response<B> {
    pub status: String,
    pub headers: HeaderMap,
    pub body: Option<B>,
}

impl<B> Outs<B> {
    pub open spec fn wf(self) -> bool {
        &&& self.sending.wf()
        &&& self.pool.wf()
        &&& forall|sid: i32| #[trigger] self.sending@.contains_key(sid) ==> self.sending@[sid].wf()
    }

    pub fn new() -> (r: Self)
        ensures
            r.wf(),
            r.sending@ == Map::<i32, SendBody<B>>::empty(),
            r.pool.free@.len() == 0,
    {
        Outs { sending: new_map(), pool: SendBodyPool::new() }
    }

    /// The stream closed: its send state goes back to the pool.
    pub fn close(&mut self, sid: i32)
        requires
            old(self).wf(),
        ensures
            final(self).wf(),
            final(self).sending@ == old(self).sending@.remove(sid),
            if old(self).sending@.contains_key(sid) {
                old(self).pool.gets_back(final(self).pool, old(self).sending@[sid])
            } else {
                final(self).pool == old(self).pool
            },
    {
        if let Some(send) = self.sending.remove(&sid) {
            self.pool.put(send);
        }
    }

    /// Take the send state of a stream to poll its body; it is put back.
    pub fn take(&mut self, sid: i32) -> (r: Option<SendBody<B>>)
        requires
            old(self).wf(),
        ensures
            final(self).wf(),
            final(self).sending@ == old(self).sending@.remove(sid),
            final(self).pool == old(self).pool,
            r is Some <==> old(self).sending@.contains_key(sid),
            r matches Some(send) ==> send == old(self).sending@[sid] && send.wf(),
    {
        self.sending.remove(&sid)
    }

    pub fn put_back(&mut self, sid: i32, send: SendBody<B>)
        requires
            old(self).wf(),
            send.wf(),
        ensures
            final(self).wf(),
            final(self).sending@ == old(self).sending@.insert(sid, send),
            final(self).pool == old(self).pool,
    {
        let _ = self.sending.insert(sid, send);
    }

    /// A response is there, or the service failed: what to submit for it.
    pub fn submit_response(&mut self, sid: i32, response: Option<Response<B>>) -> (r: ResponseSubmit)
        requires
            old(self).wf(),
        ensures
            final(self).wf(),
            match response {
                None => r == ResponseSubmit::Reset(INTERNAL_ERROR) && *final(self) == *old(self),
                Some(response) => {
                    &&& r matches ResponseSubmit::Head(nv, with_body) && with_body
                        == (response.body is Some) && nv_pairs(nv@) == seq![
                        (utf8(":status"@), utf8(response.status@)),
                    ] + sendable(header_order(response.headers))
                    &&& orders_its_values(response.headers)
                    &&& match response.body {
                        None => *final(self) == *old(self),
                        Some(body) => {
                            &&& final(self).sending@.contains_key(sid)
                            &&& final(self).sending@[sid].fresh(body)
                            &&& final(self).sending@ == old(self).sending@.insert(
                                sid,
                                final(self).sending@[sid],
                            )
                            &&& final(self).pool.free@ == old(self).pool.after_take()
                        },
                    }
                },
            },
    {
        let response = match response {
            Some(response) => response,
            None => return ResponseSubmit::Reset(INTERNAL_ERROR),
        };
        let nv = fill_response_nv(response.status.as_str(), &response.headers);
        match response.body {
            None => ResponseSubmit::Head(nv, false),
            Some(body) => {
                let send = self.pool.take(body);
                let _ = self.sending.insert(sid, send);
                assert(self.sending@ =~= old(self).sending@.insert(sid, self.sending@[sid]));
                ResponseSubmit::Head(nv, true)
            },
        }
    }
}

/// A request of the stack, as its parts.
#[derive(Debug)]
pub struct Request {
    pub method: String,
    pub scheme: Option<String>,
    pub authority: Option<String>,
    pub path_and_query: Option<String>,
    pub headers: HeaderMap,
}

pub open spec fn text_or(text: Option<String>, default: Seq<char>) -> Seq<char> {
    match text {
        Some(text) => text@,
        None => default,
    }
}

impl Request {
    /// `http` where the request names no scheme.
    pub open spec fn spec_scheme(self) -> Seq<char> {
        text_or(self.scheme, "http"@)
    }

    /// `/` where the request names no path.
    pub open spec fn spec_path(self) -> Seq<char> {
        text_or(self.path_and_query, "/"@)
    }

    /// Empty where the request names no authority.
    pub open spec fn spec_authority(self) -> Seq<char> {
        match spec_authority_of(
            match self.authority {
                Some(authority) => Some(authority@),
                None => None,
            },
            header_values(self.headers),
        ) {
            Some(authority) => authority,
            None => ""@,
        }
    }

    /// The header block of the request.
    pub fn block(&self) -> (r: Vec<Nv>)
        ensures
            nv_pairs(r@) == request_pseudo(
                utf8(self.method@),
                utf8(self.spec_scheme()),
                utf8(self.spec_authority()),
                utf8(self.spec_path()),
            ) + sendable(header_order(self.headers)),
            orders_its_values(self.headers),
    {
        let scheme: &str = match &self.scheme {
            Some(scheme) => scheme.as_str(),
            None => "http",
        };
        let path: &str = match &self.path_and_query {
            Some(path) => path.as_str(),
            None => "/",
        };
        let uri_authority: Option<&str> = match &self.authority {
            Some(authority) => Some(authority.as_str()),
            None => None,
        };
        let authority = match authority_of(uri_authority, &self.headers) {
            Some(authority) => authority,
            None => "".to_owned(),
        };
        fill_request_nv(self.method.as_str(), scheme, authority.as_str(), path, &self.headers)
    }
}

/// The requests of a client connection that wait for a response. `T` is where
/// the response goes.
#[derive(Debug)]
pub struct Waiting<B, T> {
    pub outs: Outs<B>,
    pub pending: IdMap<T>,
}

impl<B, T> Waiting<B, T> {
    pub open spec fn wf(self) -> bool {
        self.outs.wf() && self.pending.wf()
    }

    pub fn new() -> (r: Self)
        ensures
            r.wf(),
            r.outs.sending@ == Map::<i32, SendBody<B>>::empty(),
            r.outs.pool.free@.len() == 0,
            r.pending@ == Map::<i32, T>::empty(),
    {
        Waiting { outs: Outs::new(), pending: new_map() }
    }

    /// The session took a request as the stream `sid`, or refused it where that
    /// is not positive. A refused request is returned with its error.
    pub fn submit(&mut self, sid: i32, send: Option<SendBody<B>>, response: T) -> (r: Option<(T, Error)>)
        requires
            old(self).wf(),
            send matches Some(s) ==> s.wf(),
        ensures
            final(self).wf(),
            if sid > 0 {
                &&& r is None
                &&& final(self).pending@ == old(self).pending@.insert(sid, response)
                &&& final(self).outs.sending@ == match send {
                    Some(send) => old(self).outs.sending@.insert(sid, send),
                    None => old(self).outs.sending@,
                }
                &&& final(self).outs.pool == old(self).outs.pool
            } else {
                &&& r == Some(
                    (response, Error { kind: Kind::Session(Reason(REFUSED_STREAM)) }),
                )
                &&& *final(self) == *old(self)
            },
    {
        if sid <= 0 {
            return Some((response, Error::session(Reason(REFUSED_STREAM))));
        }
        if let Some(send) = send {
            self.outs.put_back(sid, send);
        }
        let _ = self.pending.insert(sid, response);
        None
    }

    /// The response of `sid` is there, or was given up.
    pub fn answered(&mut self, sid: i32) -> (r: Option<T>)
        requires
            old(self).wf(),
        ensures
            final(self).wf(),
            final(self).outs == old(self).outs,
            final(self).pending@ == old(self).pending@.remove(sid),
            r is Some <==> old(self).pending@.contains_key(sid),
            r matches Some(t) ==> t == old(self).pending@[sid],
    {
        self.pending.remove(&sid)
    }

    /// The stream closed with `code`. A request whose response never came is
    /// returned with its error.
    pub fn close(&mut self, sid: i32, code: u32) -> (r: Option<(T, Error)>)
        requires
            old(self).wf(),
        ensures
            final(self).wf(),
            final(self).outs.sending@ == old(self).outs.sending@.remove(sid),
            if old(self).outs.sending@.contains_key(sid) {
                old(self).outs.pool.gets_back(final(self).outs.pool, old(self).outs.sending@[sid])
            } else {
                final(self).outs.pool == old(self).outs.pool
            },
            final(self).pending@ == old(self).pending@.remove(sid),
            r == if old(self).pending@.contains_key(sid) {
                Some((old(self).pending@[sid], Error { kind: Kind::Reset(Reason(code)) }))
            } else {
                None
            },
    {
        self.outs.close(sid);
        match self.pending.remove(&sid) {
            Some(response) => Some((response, Error::reset(Reason(code)))),
            None => None,
        }
    }
}

/// A response is submitted with its status first and then its headers whose
/// names are none of the five that belong to one connection, each with its
/// value, in the map's order; a body follows exactly where the response has one,
/// and is then sent from its beginning. A service that failed has its stream
/// reset as an internal error. `at` says which header of the map each one behind
/// the status is.
pub proof fn a_response_is_submitted_whole<B>(sid: i32, response: Response<B>) -> (at: Seq<int>)
    ensures
        forall|i: int, j: int| 0 <= i < j < at.len() ==> at[i] < at[j],
        forall|k: int|
            #![trigger at[k]]
            0 <= k < at.len() ==> {
                let name = header_order(response.headers)[at[k]].0;
                &&& 0 <= at[k] < header_order(response.headers).len()
                &&& name != "connection"@ && name != "keep-alive"@ && name != "proxy-connection"@
                &&& name != "transfer-encoding"@ && name != "upgrade"@
            },
        forall|i: int|
            #![trigger header_order(response.headers)[i]]
            0 <= i < header_order(response.headers).len() ==> {
                let name = header_order(response.headers)[i].0;
                name != "connection"@ && name != "keep-alive"@ && name != "proxy-connection"@
                    && name != "transfer-encoding"@ && name != "upgrade"@ ==> at.contains(i)
            },
        forall|outs: &mut Outs<B>, r: ResponseSubmit| #[trigger]
            call_ensures(Outs::<B>::submit_response, (outs, sid, Some(response)), r) ==> {
                &&& r matches ResponseSubmit::Head(nv, with_body)
                &&& with_body == (response.body is Some)
                &&& nv@.len() == at.len() + 1
                &&& nv@[0].name@ == utf8(":status"@)
                &&& nv@[0].value@ == utf8(response.status@)
                &&& forall|k: int|
                    #![trigger at[k]]
                    0 <= k < at.len() ==> nv@[k + 1].name@ == utf8(
                        header_order(response.headers)[at[k]].0,
                    ) && nv@[k + 1].value@ == header_order(response.headers)[at[k]].1
                &&& response.body is None ==> final(outs).sending@ == outs.sending@
                &&& response.body is Some ==> {
                    let send = final(outs).sending@[sid];
                    &&& final(outs).sending@ == outs.sending@.insert(sid, send)
                    &&& send.body == response.body && send.chunks@.len() == 0
                    &&& send.trailers is None && send.failed is None
                    &&& !send.done && !send.deferred
                }
            },
        forall|outs: &mut Outs<B>, r: ResponseSubmit| #[trigger]
            call_ensures(Outs::<B>::submit_response, (outs, sid, None), r) ==> r
                == ResponseSubmit::Reset(2) && *final(outs) == *outs,
{
    let at = crate::h2::fields::sent_places(header_order(response.headers));
    assert forall|outs: &mut Outs<B>, r: ResponseSubmit| #[trigger]
        call_ensures(Outs::<B>::submit_response, (outs, sid, Some(response)), r) implies {
        &&& r matches ResponseSubmit::Head(nv, with_body)
        &&& nv@.len() == at.len() + 1
        &&& nv@[0].name@ == utf8(":status"@)
        &&& nv@[0].value@ == utf8(response.status@)
        &&& forall|k: int|
            #![trigger at[k]]
            0 <= k < at.len() ==> nv@[k + 1].name@ == utf8(
                header_order(response.headers)[at[k]].0,
            ) && nv@[k + 1].value@ == header_order(response.headers)[at[k]].1
    } by {
        if let ResponseSubmit::Head(nv, _) = r {
            let pairs = nv_pairs(nv@);
            assert(pairs.len() == nv@.len());
            assert(pairs[0] == (nv@[0].name@, nv@[0].value@));
            assert forall|k: int|
                #![trigger at[k]]
                0 <= k < at.len() implies nv@[k + 1].name@ == utf8(
                header_order(response.headers)[at[k]].0,
            ) && nv@[k + 1].value@ == header_order(response.headers)[at[k]].1 by {
                assert(pairs[k + 1] == (nv@[k + 1].name@, nv@[k + 1].value@));
                assert(pairs[k + 1] == sendable(header_order(response.headers))[k]);
            }
        }
    }
    at
}

/// A request goes out with its own method; with its own scheme, or `http`; with
/// the authority of its URI, or else of its `host` header, or else none; with
/// its own path, or `/`; and then with its headers whose names are none of the
/// five that belong to one connection, each with its value, in the map's order.
pub proof fn a_request_is_submitted_whole(request: Request, nv: Vec<Nv>) -> (at: Seq<int>)
    requires
        call_ensures(Request::block, (&request,), nv),
    ensures
        ({
            let hosts = header_values(request.headers);
            let host = if hosts.contains_key("host"@) && hosts["host"@].len() > 0 {
                value_text(hosts["host"@][0])
            } else {
                None
            };
            let scheme = if request.scheme is Some {
                request.scheme->0@
            } else {
                "http"@
            };
            let path = if request.path_and_query is Some {
                request.path_and_query->0@
            } else {
                "/"@
            };
            let authority = if request.authority is Some {
                request.authority->0@
            } else if host is Some {
                host->0
            } else {
                Seq::empty()
            };
            let first: int = if utf8(authority).len() == 0 {
                3
            } else {
                4
            };
            &&& nv@.len() == first + at.len()
            &&& nv@[0].name@ == utf8(":method"@) && nv@[0].value@ == utf8(request.method@)
            &&& nv@[1].name@ == utf8(":scheme"@) && nv@[1].value@ == utf8(scheme)
            &&& first == 4 ==> nv@[2].name@ == utf8(":authority"@) && nv@[2].value@ == utf8(
                authority,
            )
            &&& nv@[first - 1].name@ == utf8(":path"@) && nv@[first - 1].value@ == utf8(path)
            &&& forall|k: int|
                #![trigger at[k]]
                0 <= k < at.len() ==> nv@[first + k].name@ == utf8(
                    header_order(request.headers)[at[k]].0,
                ) && nv@[first + k].value@ == header_order(request.headers)[at[k]].1
        }),
        forall|i: int, j: int| 0 <= i < j < at.len() ==> at[i] < at[j],
        forall|k: int|
            #![trigger at[k]]
            0 <= k < at.len() ==> {
                let name = header_order(request.headers)[at[k]].0;
                &&& 0 <= at[k] < header_order(request.headers).len()
                &&& name != "connection"@ && name != "keep-alive"@ && name != "proxy-connection"@
                &&& name != "transfer-encoding"@ && name != "upgrade"@
            },
        forall|i: int|
            #![trigger header_order(request.headers)[i]]
            0 <= i < header_order(request.headers).len() ==> {
                let name = header_order(request.headers)[i].0;
                name != "connection"@ && name != "keep-alive"@ && name != "proxy-connection"@
                    && name != "transfer-encoding"@ && name != "upgrade"@ ==> at.contains(i)
            },
{
    let at = crate::h2::fields::sent_places(header_order(request.headers));
    reveal_strlit("");
    assert(""@ =~= Seq::<char>::empty());
    let pairs = nv_pairs(nv@);
    let pseudo = request_pseudo(
        utf8(request.method@),
        utf8(request.spec_scheme()),
        utf8(request.spec_authority()),
        utf8(request.spec_path()),
    );
    let first = pseudo.len() as int;
    assert(pairs.len() == nv@.len());
    assert forall|k: int| 0 <= k < nv@.len() implies pairs[k] == (
        (#[trigger] nv@[k]).name@,
        nv@[k].value@,
    ) by {}
    assert forall|k: int| 0 <= k < first implies #[trigger] pairs[k] == pseudo[k] by {}
    assert(pseudo[0] == pairs[0] && pseudo[1] == pairs[1] && pseudo[first - 1] == pairs[first - 1]);
    assert(first == 4 ==> pseudo[2] == pairs[2]);
    assert forall|k: int|
        #![trigger at[k]]
        0 <= k < at.len() implies nv@[first + k].name@ == utf8(
        header_order(request.headers)[at[k]].0,
    ) && nv@[first + k].value@ == header_order(request.headers)[at[k]].1 by {
        assert(pairs[first + k] == (nv@[first + k].name@, nv@[first + k].value@));
        assert(pairs[first + k] == sendable(header_order(request.headers))[k]);
    }
    at
}

/// A request that the session takes, as a stream with a positive number, waits
/// for its response and sends its body; one that it does not take is given back
/// as refused, and nothing waits for it.
pub proof fn a_submitted_request_waits<B, T>(sid: i32, send: Option<SendBody<B>>, response: T)
    ensures
        forall|waiting: &mut Waiting<B, T>, r: Option<(T, Error)>| #[trigger]
            call_ensures(Waiting::<B, T>::submit, (waiting, sid, send, response), r) ==> {
                &&& sid > 0 ==> {
                    &&& r is None
                    &&& final(waiting).pending@ == waiting.pending@.insert(sid, response)
                    &&& send is Some ==> final(waiting).outs.sending@
                        == waiting.outs.sending@.insert(sid, send->0)
                    &&& send is None ==> final(waiting).outs.sending@ == waiting.outs.sending@
                }
                &&& sid <= 0 ==> r == Some((response, Error { kind: Kind::Session(Reason(7)) }))
                    && *final(waiting) == *waiting
            },
{
}

/// A request that waits is answered to its own caller and waits no more; where
/// its stream closes first, its caller gets the reset with the stream's code,
/// whatever the code is, and its body is sent no further.
pub proof fn a_waiting_request_hears_once<B, T>(sid: i32, code: u32)
    ensures
        forall|waiting: &mut Waiting<B, T>, r: Option<T>| #[trigger]
            call_ensures(Waiting::<B, T>::answered, (waiting, sid), r) ==> {
                &&& r == if waiting.pending@.contains_key(sid) {
                    Some(waiting.pending@[sid])
                } else {
                    None
                }
                &&& final(waiting).pending@ == waiting.pending@.remove(sid)
                &&& final(waiting).outs == waiting.outs
            },
        forall|waiting: &mut Waiting<B, T>, r: Option<(T, Error)>| #[trigger]
            call_ensures(Waiting::<B, T>::close, (waiting, sid, code), r) ==> {
                &&& r == if waiting.pending@.contains_key(sid) {
                    Some((waiting.pending@[sid], Error { kind: Kind::Reset(Reason(code)) }))
                } else {
                    None
                }
                &&& final(waiting).pending@ == waiting.pending@.remove(sid)
                &&& final(waiting).outs.sending@ == waiting.outs.sending@.remove(sid)
            },
{
}

/// A stream's send state is taken out and put back as it is, and goes to the
/// pool, without its body, chunks and trailers, once the stream has closed.
pub proof fn a_send_state_is_its_streams<B>(sid: i32, send: SendBody<B>)
    ensures
        forall|outs: &mut Outs<B>, r: Option<SendBody<B>>| #[trigger]
            call_ensures(Outs::<B>::take, (outs, sid), r) ==> r == (if outs.sending@.contains_key(
                sid,
            ) {
                Some(outs.sending@[sid])
            } else {
                None
            }) && final(outs).sending@ == outs.sending@.remove(sid) && final(outs).pool
                == outs.pool,
        forall|outs: &mut Outs<B>| #[trigger]
            call_ensures(Outs::<B>::put_back, (outs, sid, send), ()) ==> final(outs).sending@
                == outs.sending@.insert(sid, send) && final(outs).pool == outs.pool,
        forall|outs: &mut Outs<B>| #[trigger]
            call_ensures(Outs::<B>::close, (outs, sid), ()) ==> {
                let n = outs.pool.free@.len();
                &&& final(outs).sending@ == outs.sending@.remove(sid)
                &&& !outs.sending@.contains_key(sid) || n >= 64 ==> final(outs).pool.free@
                    == outs.pool.free@
                &&& outs.sending@.contains_key(sid) && n < 64 ==> {
                    &&& final(outs).pool.free@.len() == n + 1
                    &&& final(outs).pool.free@.drop_last() == outs.pool.free@
                    &&& final(outs).pool.free@[n as int].body is None
                    &&& final(outs).pool.free@[n as int].trailers is None
                    &&& final(outs).pool.free@[n as int].chunks@.len() == 0
                }
            },
{
}

/// Nothing is sent and nothing waits to begin with.
pub proof fn sending_begins_empty<B, T>()
    ensures
        forall|r: Outs<B>| #[trigger]
            call_ensures(Outs::<B>::new, (), r) ==> r.pool.free@.len() == 0 && forall|sid: i32|
                !(#[trigger] r.sending@.contains_key(sid)),
        forall|r: Waiting<B, T>| #[trigger]
            call_ensures(Waiting::<B, T>::new, (), r) ==> r.outs.pool.free@.len() == 0 && (forall|
                sid: i32,
            |
                !(#[trigger] r.outs.sending@.contains_key(sid))) && forall|sid: i32|
                !(#[trigger] r.pending@.contains_key(sid)),
{
}

/// A response with a body takes a send state from the pool where one is free; a
/// submitted request takes none, and an answered one gives none back.
pub proof fn send_states_come_from_the_pool<B, T>(
    sid: i32,
    response: Response<B>,
    send: Option<SendBody<B>>,
    caller: T,
)
    ensures
        forall|outs: &mut Outs<B>, r: ResponseSubmit| #[trigger]
            call_ensures(Outs::<B>::submit_response, (outs, sid, Some(response)), r) ==> {
                &&& response.body is Some && outs.pool.free@.len() > 0 ==> final(outs).pool.free@
                    == outs.pool.free@.drop_last()
                &&& response.body is None || outs.pool.free@.len() == 0 ==> final(outs).pool.free@
                    == outs.pool.free@
            },
        forall|waiting: &mut Waiting<B, T>, r: Option<(T, Error)>| #[trigger]
            call_ensures(Waiting::<B, T>::submit, (waiting, sid, send, caller), r)
                ==> final(waiting).outs.pool == waiting.outs.pool,
        forall|waiting: &mut Waiting<B, T>, code: u32, r: Option<(T, Error)>| #[trigger]
            call_ensures(Waiting::<B, T>::close, (waiting, sid, code), r) ==> {
                let n = waiting.outs.pool.free@.len();
                let kept = waiting.outs.sending@.contains_key(sid) && n < 64;
                &&& kept ==> final(waiting).outs.pool.free@.drop_last() == waiting.outs.pool.free@
                    && final(waiting).outs.pool.free@.len() == n + 1
                &&& !kept ==> final(waiting).outs.pool.free@ == waiting.outs.pool.free@
            },
{
}

} // verus!
