//! What a server's connection does with the session's callbacks and with its
//! services.
use vstd::prelude::*;

use http::HeaderMap;

use crate::h2::body::{RecvShared, SendBody};
use crate::h2::chunk::{chunk_bytes, joined};
use crate::h2::conn::{close_body, takes_head, wires, Action, ConnState, Dispatched};
use crate::h2::error::{Error, Kind, Reason, PROTOCOL_ERROR};
use crate::h2::head::{method_of, uri_of, RequestHead};
use crate::h2::streams::Outs;
use crate::headers::{header_values, no_headers};
use crate::text::utf8;

verus! {

/// A server's connection. `B` is the stack's body.
#[derive(Debug)]
pub struct ServerConn<B> {
    pub conn: ConnState,
    pub outs: Outs<B>,
}

/// What the driver does for an action.
#[derive(Debug)]
pub enum ServerEffect {
    Nothing,
    /// Reset the stream with this code.
    Reset(i32, u32),
    /// Call the service for the stream.
    Call(i32, RequestHead),
}

impl<B> ServerConn<B> {
    pub open spec fn wf(self) -> bool {
        self.conn.wf() && self.outs.wf()
    }

    pub fn new(no_header_materialize: bool) -> (r: Self)
        ensures
            r.wf(),
            r.conn.is_server,
            r.conn.no_header_materialize == no_header_materialize,
            r.conn.recv@.dom() == Set::<i32>::empty(),
            r.conn.bodies@.dom() == Set::<i32>::empty(),
            r.conn.actions@.len() == 0,
            r.outs.sending@ == Map::<i32, SendBody<B>>::empty(),
    {
        let conn = ConnState::new(true, no_header_materialize);
        assert(conn.recv@.dom() =~= Set::<i32>::empty());
        assert(conn.bodies@.dom() =~= Set::<i32>::empty());
        ServerConn { conn, outs: Outs::new() }
    }

    /// Do what a callback queued. Requests are dispatched at once: the services
    /// shed load themselves, so a queue here would only add latency.
    pub fn handle(&mut self, action: Action) -> (r: ServerEffect)
        requires
            old(self).wf(),
            action matches Action::Dispatch(sid, _) ==> old(self).conn.pending_fits(sid),
        ensures
            final(self).wf(),
            final(self).conn.actions == old(self).conn.actions,
            final(self).conn.is_server == old(self).conn.is_server,
            final(self).conn.no_header_materialize == old(self).conn.no_header_materialize,
            match action {
                Action::Dispatch(sid, end_stream) => {
                    &&& final(self).outs == old(self).outs
                    &&& match old(self).conn.head(sid) {
                        None => r is Nothing && final(self).conn.recv@ == old(self).conn.recv@
                            && final(self).conn.bodies@ == old(self).conn.bodies@,
                        Some(head) => if old(self).conn.no_header_materialize {
                            &&& r matches ServerEffect::Call(id, request) && id == sid
                                && request.method@ == "POST"@ && request.uri@
                                == "http://srv-search/search.Search/Nearby"@ && header_values(
                                request.headers,
                            ) == no_headers()
                            &&& wires(old(self).conn, final(self).conn, sid, end_stream)
                        } else if head.spec_request() is Some {
                            &&& r matches ServerEffect::Call(id, request) && id == sid && (
                            request.method@,
                            request.uri@,
                        ) == head.spec_request()->0 && request.headers == head.headers
                            &&& wires(old(self).conn, final(self).conn, sid, end_stream)
                        } else {
                            &&& r == ServerEffect::Reset(sid, PROTOCOL_ERROR)
                            &&& takes_head(old(self).conn, final(self).conn, sid)
                        },
                    }
                },
                Action::Eof(sid) => {
                    &&& r is Nothing
                    &&& final(self).outs == old(self).outs
                    &&& final(self).conn.recv == old(self).conn.recv
                    &&& final(self).conn.bodies@ == if old(self).conn.is_wired(sid) {
                        old(self).conn.bodies@.insert(
                            sid,
                            RecvShared { eof: true, ..old(self).conn.bodies@[sid] },
                        )
                    } else {
                        old(self).conn.bodies@
                    }
                },
                Action::Trailers(sid, trailers) => {
                    &&& r is Nothing
                    &&& final(self).outs == old(self).outs
                    &&& final(self).conn.recv == old(self).conn.recv
                    &&& final(self).conn.bodies@ == if old(self).conn.is_wired(sid) {
                        old(self).conn.bodies@.insert(
                            sid,
                            RecvShared {
                                trailers: Some(trailers),
                                ..old(self).conn.bodies@[sid]
                            },
                        )
                    } else {
                        old(self).conn.bodies@
                    }
                },
                Action::Closed(sid, code) => {
                    &&& r is Nothing
                    &&& final(self).outs.sending@ == old(self).outs.sending@.remove(sid)
                    &&& if old(self).outs.sending@.contains_key(sid) {
                        old(self).outs.pool.gets_back(
                            final(self).outs.pool,
                            old(self).outs.sending@[sid],
                        )
                    } else {
                        final(self).outs.pool == old(self).outs.pool
                    }
                    &&& final(self).conn.recv@ == old(self).conn.recv@.remove(sid)
                    &&& final(self).conn.bodies@ == if old(self).conn.is_wired(sid) {
                        old(self).conn.bodies@.insert(
                            sid,
                            close_body(old(self).conn.bodies@[sid], code),
                        )
                    } else {
                        old(self).conn.bodies@
                    }
                },
            },
    {
        match action {
            Action::Dispatch(sid, end_stream) => match self.conn.dispatch(sid, end_stream) {
                Dispatched::Ignored => ServerEffect::Nothing,
                Dispatched::Reset(code) => ServerEffect::Reset(sid, code),
                Dispatched::Request(request) => ServerEffect::Call(sid, request),
            },
            Action::Eof(sid) => {
                self.conn.eof(sid);
                ServerEffect::Nothing
            },
            Action::Trailers(sid, trailers) => {
                self.conn.trailers(sid, trailers);
                ServerEffect::Nothing
            },
            Action::Closed(sid, code) => {
                self.conn.closed(sid, code);
                self.outs.close(sid);
                ServerEffect::Nothing
            },
        }
    }

    /// Put a send state back once its body was polled; `progressed` says that
    /// the poll gave something. Returns whether to resume the stream.
    pub fn pumped(&mut self, sid: i32, send: SendBody<B>, progressed: bool) -> (r: bool)
        requires
            old(self).wf(),
            send.wf(),
        ensures
            final(self).wf(),
            final(self).conn == old(self).conn,
            r == (progressed && send.resumable()),
            final(self).outs.pool == old(self).outs.pool,
            final(self).outs.sending@ == old(self).outs.sending@.insert(
                sid,
                if r {
                    SendBody { deferred: false, ..send }
                } else {
                    send
                },
            ),
    {
        let mut send = send;
        let resume: bool = progressed && send.resume();
        self.outs.put_back(sid, send);
        resume
    }
}

/// A stream that closes is forgotten on both sides. A request body that was
/// delivered fails with the stream's code where it is not zero, and ends without
/// an error where it is.
pub proof fn a_close_reaches_the_request_body<B>(sid: i32, code: u32)
    ensures
        forall|server: &mut ServerConn<B>, r: ServerEffect| #[trigger]
            call_ensures(ServerConn::<B>::handle, (server, Action::Closed(sid, code)), r) ==> {
                let before = server.conn.bodies@[sid];
                let after = final(server).conn.bodies@[sid];
                let wired = server.conn.recv@.contains_key(sid) && server.conn.recv@[sid].wired;
                &&& r is Nothing
                &&& final(server).outs.sending@ == server.outs.sending@.remove(sid)
                &&& final(server).conn.recv@ == server.conn.recv@.remove(sid)
                &&& wired && code != 0 ==> after.error == Some(
                    Error { kind: Kind::Reset(Reason(code)) },
                ) && after.eof == before.eof && after.chunks == before.chunks && after.trailers
                    == before.trailers
                &&& wired && code == 0 ==> after.eof && after.error == before.error && after.chunks
                    == before.chunks && after.trailers == before.trailers
                &&& !wired ==> final(server).conn.bodies@ == server.conn.bodies@
            },
{
}

/// A request calls the service exactly where its head is complete, it has a
/// method that is one, and its scheme, authority and path make a URI; the path
/// is `/` where none came. Its body then holds what came with it. A complete
/// head that makes no request has its stream reset as a protocol error.
pub proof fn a_request_calls_its_service<B>(sid: i32, end_stream: bool)
    ensures
        forall|server: &mut ServerConn<B>, r: ServerEffect| #[trigger]
            call_ensures(ServerConn::<B>::handle, (server, Action::Dispatch(sid, end_stream)), r)
                && !server.conn.no_header_materialize ==> {
                let stream = server.conn.recv@[sid];
                let head = stream.builder->0;
                let body = final(server).conn.bodies@[sid];
                let path = match head.path {
                    Some(path) => chunk_bytes(path),
                    None => utf8("/"@),
                };
                let scheme = match head.scheme {
                    Some(scheme) => Some(chunk_bytes(scheme)),
                    None => None,
                };
                let authority = match head.authority {
                    Some(authority) => Some(chunk_bytes(authority)),
                    None => None,
                };
                let uri = uri_of(scheme, authority, path);
                let complete = server.conn.recv@.contains_key(sid) && stream.head_done
                    && stream.builder is Some;
                let good = head.method is Some && method_of(chunk_bytes(head.method->0)) is Some
                    && uri is Some;
                &&& !complete ==> r is Nothing && final(server).conn.bodies@ == server.conn.bodies@
                    && final(server).conn.recv@ == server.conn.recv@
                &&& complete && !good ==> r == ServerEffect::Reset(sid, 1)
                    && final(server).conn.bodies@ == server.conn.bodies@
                &&& complete && good ==> {
                    &&& r matches ServerEffect::Call(id, request)
                    &&& id == sid
                    &&& request.method@ == method_of(chunk_bytes(head.method->0))->0
                    &&& request.uri@ == uri->0
                    &&& request.headers == head.headers
                    &&& final(server).conn.recv@[sid].wired
                    &&& joined(body.chunks@) == joined(stream.pending@)
                    &&& body.eof == end_stream && body.error is None && body.trailers is None
                }
                &&& final(server).outs == server.outs
            },
{
}

/// The end and the trailers of a request's body are set on the body, where it
/// was delivered.
pub proof fn an_end_reaches_the_request_body<B>(sid: i32, trailers: HeaderMap)
    ensures
        forall|server: &mut ServerConn<B>, r: ServerEffect| #[trigger]
            call_ensures(ServerConn::<B>::handle, (server, Action::Eof(sid)), r) ==> {
                let wired = server.conn.recv@.contains_key(sid) && server.conn.recv@[sid].wired;
                &&& r is Nothing && final(server).outs == server.outs
                &&& wired ==> final(server).conn.bodies@ == server.conn.bodies@.insert(
                    sid,
                    RecvShared { eof: true, ..server.conn.bodies@[sid] },
                )
                &&& !wired ==> final(server).conn.bodies@ == server.conn.bodies@
            },
        forall|server: &mut ServerConn<B>, r: ServerEffect| #[trigger]
            call_ensures(ServerConn::<B>::handle, (server, Action::Trailers(sid, trailers)), r)
                ==> {
                let wired = server.conn.recv@.contains_key(sid) && server.conn.recv@[sid].wired;
                &&& r is Nothing && final(server).outs == server.outs
                &&& wired ==> final(server).conn.bodies@ == server.conn.bodies@.insert(
                    sid,
                    RecvShared { trailers: Some(trailers), ..server.conn.bodies@[sid] },
                )
                &&& !wired ==> final(server).conn.bodies@ == server.conn.bodies@
            },
{
}

/// A stream is resumed once a poll of its body gave something exactly where it
/// was told to wait and now has data or its end.
pub proof fn a_polled_response_resumes_its_stream<B>(sid: i32, send: SendBody<B>, progressed: bool)
    ensures
        forall|server: &mut ServerConn<B>, r: bool| #[trigger]
            call_ensures(ServerConn::<B>::pumped, (server, sid, send, progressed), r) ==> {
                let now = final(server).outs.sending@;
                &&& r <==> progressed && send.deferred && (send.chunks@.len() > 0 || send.done)
                &&& now.contains_key(sid)
                &&& now[sid].chunks == send.chunks && now[sid].done == send.done
                &&& now[sid].deferred == (send.deferred && !r)
                &&& now.remove(sid) == server.outs.sending@.remove(sid)
                &&& final(server).conn == server.conn
            },
{
    assert forall|server: &mut ServerConn<B>, r: bool| #[trigger]
        call_ensures(ServerConn::<B>::pumped, (server, sid, send, progressed), r) implies final(
        server).outs.sending@.remove(sid) == server.outs.sending@.remove(sid) by {
        assert(final(server).outs.sending@.remove(sid) =~= server.outs.sending@.remove(sid));
    }
}

/// A new server's connection is a server's, and nothing is received or sent.
pub proof fn a_server_begins_idle<B>(no_header_materialize: bool, r: ServerConn<B>)
    requires
        call_ensures(ServerConn::<B>::new, (no_header_materialize,), r),
    ensures
        r.conn.is_server,
        r.conn.no_header_materialize == no_header_materialize,
        r.conn.actions@.len() == 0,
        forall|sid: i32| !(#[trigger] r.conn.recv@.dom().contains(sid)),
        forall|sid: i32| !(#[trigger] r.outs.sending@.contains_key(sid)),
{
}

/// Where headers are only counted, every complete head calls the service with
/// the one request that stands for all.
pub proof fn counted_requests_are_all_the_same<B>(sid: i32, end_stream: bool)
    ensures
        forall|server: &mut ServerConn<B>, r: ServerEffect| #[trigger]
            call_ensures(ServerConn::<B>::handle, (server, Action::Dispatch(sid, end_stream)), r)
                && server.conn.no_header_materialize && server.conn.recv@.contains_key(sid)
                && server.conn.recv@[sid].head_done && server.conn.recv@[sid].builder is Some ==> {
                &&& r matches ServerEffect::Call(id, request)
                &&& id == sid
                &&& request.method@ == "POST"@
                &&& request.uri@ == "http://srv-search/search.Search/Nearby"@
                &&& final(server).conn.recv@[sid].wired
            },
{
}

/// A closed stream's send state goes to the pool where there is room.
pub proof fn a_server_reuses_what_it_sent<B>(sid: i32, code: u32)
    ensures
        forall|server: &mut ServerConn<B>, r: ServerEffect| #[trigger]
            call_ensures(ServerConn::<B>::handle, (server, Action::Closed(sid, code)), r) ==> {
                let n = server.outs.pool.free@.len();
                let kept = server.outs.sending@.contains_key(sid) && n < 64;
                &&& kept ==> final(server).outs.pool.free@.drop_last() == server.outs.pool.free@
                    && final(server).outs.pool.free@.len() == n + 1
                &&& !kept ==> final(server).outs.pool.free@ == server.outs.pool.free@
            },
{
}

} // verus!
