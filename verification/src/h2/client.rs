//! What a client's connection does with the session's callbacks.
use vstd::prelude::*;

use http::HeaderMap;

use crate::h2::body::{RecvShared, SendBody};
use crate::h2::chunk::joined;
use crate::h2::conn::{close_body, takes_head, wires, Action, ConnState, Delivered};
use crate::h2::error::{Error, Kind, Reason};
use crate::h2::head::ResponseHead;
use crate::h2::streams::Waiting;

verus! {

/// A client's connection. `B` is the stack's body and `T` is where a response
/// goes.
#[derive(Debug)]
pub struct ClientConn<B, T> {
    pub conn: ConnState,
    pub waiting: Waiting<B, T>,
}

/// What the driver does for an action.
#[derive(Debug)]
pub enum ClientEffect<T> {
    Nothing,
    /// The response of the stream is there.
    Respond(T, i32, ResponseHead),
    /// The request failed.
    Fail(T, Error),
    /// The request is given up without an answer: to its caller the connection
    /// has closed.
    GiveUp(T),
}

impl<T> ClientEffect<T> {
    /// Whose request is over.
    pub open spec fn caller(self) -> Option<T> {
        match self {
            ClientEffect::Nothing => None,
            ClientEffect::Respond(t, _, _) => Some(t),
            ClientEffect::Fail(t, _) => Some(t),
            ClientEffect::GiveUp(t) => Some(t),
        }
    }
}

/// The stream that an action is about.
pub open spec fn stream_of(action: Action) -> i32 {
    match action {
        Action::Dispatch(sid, _) => sid,
        Action::Trailers(sid, _) => sid,
        Action::Eof(sid) => sid,
        Action::Closed(sid, _) => sid,
    }
}

impl<B, T> ClientConn<B, T> {
    pub open spec fn wf(self) -> bool {
        self.conn.wf() && self.waiting.wf()
    }

    pub fn new(no_header_materialize: bool) -> (r: Self)
        ensures
            r.wf(),
            !r.conn.is_server,
            r.conn.no_header_materialize == no_header_materialize,
            r.conn.recv@.dom() == Set::<i32>::empty(),
            r.conn.bodies@.dom() == Set::<i32>::empty(),
            r.conn.actions@.len() == 0,
            r.waiting.pending@ == Map::<i32, T>::empty(),
            r.waiting.outs.sending@ == Map::<i32, SendBody<B>>::empty(),
            r.waiting.outs.pool.free@.len() == 0,
    {
        let conn = ConnState::new(false, no_header_materialize);
        assert(conn.recv@.dom() =~= Set::<i32>::empty());
        assert(conn.bodies@.dom() =~= Set::<i32>::empty());
        ClientConn { conn, waiting: Waiting::new() }
    }

    /// What doing an action changes, and what it gives.
    pub open spec fn handled(self, after: Self, action: Action, r: ClientEffect<T>) -> bool {
        match action {
            Action::Dispatch(sid, end_stream) => {
                let asked = self.waiting.pending@;
                &&& after.waiting.outs == self.waiting.outs
                &&& match self.conn.head(sid) {
                    None => r is Nothing && after.conn.recv@ == self.conn.recv@
                        && after.conn.bodies@ == self.conn.bodies@ && after.waiting == self.waiting,
                    Some(head) => match head.status {
                        None => r is Nothing && takes_head(
                            self.conn,
                            after.conn,
                            sid,
                        ) && after.waiting == self.waiting,
                        Some(status) => {
                            &&& wires(self.conn, after.conn, sid, end_stream)
                            &&& after.waiting.pending@ == asked.remove(sid)
                            &&& if !asked.contains_key(sid) {
                                r is Nothing
                            } else if 100 <= status < 1000 {
                                r matches ClientEffect::Respond(t, id, response) && t
                                    == asked[sid] && id == sid && response.status == status
                                    && response.headers == head.headers
                            } else {
                                r == ClientEffect::GiveUp(asked[sid])
                            }
                        },
                    },
                }
            },
            Action::Eof(sid) => {
                &&& r is Nothing
                &&& after.waiting == self.waiting
                &&& after.conn.recv == self.conn.recv
                &&& after.conn.bodies@ == if self.conn.is_wired(sid) {
                    self.conn.bodies@.insert(
                        sid,
                        RecvShared { eof: true, ..self.conn.bodies@[sid] },
                    )
                } else {
                    self.conn.bodies@
                }
            },
            Action::Trailers(sid, trailers) => {
                &&& r is Nothing
                &&& after.waiting == self.waiting
                &&& after.conn.recv == self.conn.recv
                &&& after.conn.bodies@ == if self.conn.is_wired(sid) {
                    self.conn.bodies@.insert(
                        sid,
                        RecvShared {
                            trailers: Some(trailers),
                            ..self.conn.bodies@[sid]
                        },
                    )
                } else {
                    self.conn.bodies@
                }
            },
            Action::Closed(sid, code) => {
                let asked = self.waiting.pending@;
                // A response that never came fails its caller.
                &&& r == if asked.contains_key(sid) {
                    ClientEffect::Fail(asked[sid], Error { kind: Kind::Reset(Reason(code)) })
                } else {
                    ClientEffect::Nothing
                }
                &&& after.waiting.pending@ == asked.remove(sid)
                &&& after.waiting.outs.sending@ == self.waiting.outs.sending@.remove(sid)
                &&& if self.waiting.outs.sending@.contains_key(sid) {
                    self.waiting.outs.pool.gets_back(
                        after.waiting.outs.pool,
                        self.waiting.outs.sending@[sid],
                    )
                } else {
                    after.waiting.outs.pool == self.waiting.outs.pool
                }
                &&& after.conn.recv@ == self.conn.recv@.remove(sid)
                &&& after.conn.bodies@ == if self.conn.is_wired(sid) {
                    self.conn.bodies@.insert(
                        sid,
                        close_body(self.conn.bodies@[sid], code),
                    )
                } else {
                    self.conn.bodies@
                }
            },
        }
    }

    /// Do what a callback queued.
    pub fn handle(&mut self, action: Action) -> (r: ClientEffect<T>)
        requires
            old(self).wf(),
            action matches Action::Dispatch(sid, _) ==> old(self).conn.pending_fits(sid),
        ensures
            final(self).wf(),
            final(self).conn.actions == old(self).conn.actions,
            final(self).conn.is_server == old(self).conn.is_server,
            final(self).conn.no_header_materialize == old(self).conn.no_header_materialize,
            old(self).handled(*final(self), action, r),
    {
        match action {
            Action::Dispatch(sid, end_stream) => match self.conn.deliver_response(
                sid,
                end_stream,
            ) {
                Delivered::Ignored => ClientEffect::Nothing,
                Delivered::Response(response) => match self.waiting.answered(sid) {
                    Some(t) => ClientEffect::Respond(t, sid, response),
                    None => ClientEffect::Nothing,
                },
                Delivered::Unusable => match self.waiting.answered(sid) {
                    Some(t) => ClientEffect::GiveUp(t),
                    None => ClientEffect::Nothing,
                },
            },
            Action::Eof(sid) => {
                self.conn.eof(sid);
                ClientEffect::Nothing
            },
            Action::Trailers(sid, trailers) => {
                self.conn.trailers(sid, trailers);
                ClientEffect::Nothing
            },
            Action::Closed(sid, code) => {
                self.conn.closed(sid, code);
                match self.waiting.close(sid, code) {
                    Some((t, error)) => ClientEffect::Fail(t, error),
                    None => ClientEffect::Nothing,
                }
            },
        }
    }

    /// Put a send state back once its body was polled. Returns whether to
    /// resume the stream.
    pub fn pumped(&mut self, sid: i32, send: SendBody<B>) -> (r: bool)
        requires
            old(self).wf(),
            send.wf(),
        ensures
            final(self).wf(),
            final(self).conn == old(self).conn,
            final(self).waiting.pending == old(self).waiting.pending,
            r == send.resumable(),
            final(self).waiting.outs.pool == old(self).waiting.outs.pool,
            final(self).waiting.outs.sending@ == old(self).waiting.outs.sending@.insert(
                sid,
                if r {
                    SendBody { deferred: false, ..send }
                } else {
                    send
                },
            ),
    {
        let mut send = send;
        let resume: bool = send.resume();
        self.waiting.outs.put_back(sid, send);
        resume
    }
}

/// Every request is answered once: whatever the session queues, a request that
/// waits goes on waiting or its caller is told, and a caller that is told waits
/// no longer. A stream that closes leaves nobody waiting.
pub proof fn a_request_is_answered_once<B, T>(
    before: ClientConn<B, T>,
    after: ClientConn<B, T>,
    action: Action,
    effect: ClientEffect<T>,
    sid: i32,
)
    requires
        before.handled(after, action, effect),
    ensures
        before.waiting.pending@.contains_key(sid) ==> {
            ||| after.waiting.pending@.contains_key(sid) && after.waiting.pending@[sid]
                == before.waiting.pending@[sid]
            ||| stream_of(action) == sid && effect.caller() == Some(before.waiting.pending@[sid])
        },
        effect.caller() is Some ==> before.waiting.pending@.contains_key(stream_of(action))
            && !after.waiting.pending@.contains_key(stream_of(action)),
        after.waiting.pending@.contains_key(sid) ==> before.waiting.pending@.contains_key(sid),
        action is Closed ==> !after.waiting.pending@.contains_key(stream_of(action)),
{
}

/// A caller whose stream closes before its response came gets the reset with
/// the stream's code, and the stream is forgotten on both sides; a caller whose
/// response came is not told again. A body that was delivered fails with the
/// code where it is not zero, and ends without an error where it is.
pub proof fn a_close_reaches_caller_and_body<B, T>(sid: i32, code: u32)
    ensures
        forall|client: &mut ClientConn<B, T>, r: ClientEffect<T>| #[trigger]
            call_ensures(ClientConn::<B, T>::handle, (client, Action::Closed(sid, code)), r) ==> {
                let asked = client.waiting.pending@;
                let before = client.conn.bodies@[sid];
                let after = final(client).conn.bodies@[sid];
                let wired = client.conn.recv@.contains_key(sid) && client.conn.recv@[sid].wired;
                &&& asked.contains_key(sid) ==> r == ClientEffect::Fail(
                    asked[sid],
                    Error { kind: Kind::Reset(Reason(code)) },
                )
                &&& !asked.contains_key(sid) ==> r is Nothing
                &&& final(client).waiting.pending@ == asked.remove(sid)
                &&& final(client).waiting.outs.sending@ == client.waiting.outs.sending@.remove(sid)
                &&& final(client).conn.recv@ == client.conn.recv@.remove(sid)
                &&& wired && code != 0 ==> after.error == Some(
                    Error { kind: Kind::Reset(Reason(code)) },
                ) && after.eof == before.eof && after.chunks == before.chunks && after.trailers
                    == before.trailers
                &&& wired && code == 0 ==> after.eof && after.error == before.error && after.chunks
                    == before.chunks && after.trailers == before.trailers
                &&& !wired ==> final(client).conn.bodies@ == client.conn.bodies@
            },
{
}

/// A response reaches the caller that waits for its stream, with its status and
/// headers, and its body holds what came with it. One with a status that does
/// not have three digits gives its caller up; one without a status, or without a
/// complete head, changes nothing for the caller.
pub proof fn a_response_reaches_its_caller<B, T>(sid: i32, end_stream: bool)
    ensures
        forall|client: &mut ClientConn<B, T>, r: ClientEffect<T>| #[trigger]
            call_ensures(
                ClientConn::<B, T>::handle,
                (client, Action::Dispatch(sid, end_stream)),
                r,
            ) ==> {
                let asked = client.waiting.pending@;
                let stream = client.conn.recv@[sid];
                let body = final(client).conn.bodies@[sid];
                let head = client.conn.recv@.contains_key(sid) && stream.head_done && stream.builder
                    is Some && stream.builder->0.status is Some;
                let status = stream.builder->0.status->0;
                &&& !head ==> r is Nothing && final(client).waiting == client.waiting
                    && final(client).conn.bodies@ == client.conn.bodies@
                &&& head ==> {
                    &&& final(client).conn.recv@[sid].wired
                    &&& joined(body.chunks@) == joined(stream.pending@)
                    &&& body.eof == end_stream && body.error is None && body.trailers is None
                    &&& final(client).waiting.pending@ == asked.remove(sid)
                    &&& !asked.contains_key(sid) ==> r is Nothing
                }
                &&& head && asked.contains_key(sid) && 100 <= status <= 999 ==> (r matches
                    ClientEffect::Respond(caller, id, response) && caller == asked[sid] && id == sid
                    && response.status == status && response.headers == stream.builder->0.headers)
                &&& head && asked.contains_key(sid) && (status < 100 || status > 999) ==> r
                    == ClientEffect::<T>::GiveUp(asked[sid])
            },
{
}

/// The end and the trailers of a response's body are no concern of its caller:
/// they are set on the body, where it was delivered.
pub proof fn an_end_reaches_the_body<B, T>(sid: i32, trailers: HeaderMap)
    ensures
        forall|client: &mut ClientConn<B, T>, r: ClientEffect<T>| #[trigger]
            call_ensures(ClientConn::<B, T>::handle, (client, Action::Eof(sid)), r) ==> {
                let wired = client.conn.recv@.contains_key(sid) && client.conn.recv@[sid].wired;
                &&& r is Nothing && final(client).waiting == client.waiting
                &&& wired ==> final(client).conn.bodies@ == client.conn.bodies@.insert(
                    sid,
                    RecvShared { eof: true, ..client.conn.bodies@[sid] },
                )
                &&& !wired ==> final(client).conn.bodies@ == client.conn.bodies@
            },
        forall|client: &mut ClientConn<B, T>, r: ClientEffect<T>| #[trigger]
            call_ensures(
                ClientConn::<B, T>::handle,
                (client, Action::Trailers(sid, trailers)),
                r,
            ) ==> {
                let wired = client.conn.recv@.contains_key(sid) && client.conn.recv@[sid].wired;
                &&& r is Nothing && final(client).waiting == client.waiting
                &&& wired ==> final(client).conn.bodies@ == client.conn.bodies@.insert(
                    sid,
                    RecvShared { trailers: Some(trailers), ..client.conn.bodies@[sid] },
                )
                &&& !wired ==> final(client).conn.bodies@ == client.conn.bodies@
            },
{
}

/// A stream is resumed once its body was polled exactly where it was told to
/// wait and now has data or its end.
pub proof fn a_polled_body_resumes_its_stream<B, T>(sid: i32, send: SendBody<B>)
    ensures
        forall|client: &mut ClientConn<B, T>, r: bool| #[trigger]
            call_ensures(ClientConn::<B, T>::pumped, (client, sid, send), r) ==> {
                let now = final(client).waiting.outs.sending@;
                &&& r <==> send.deferred && (send.chunks@.len() > 0 || send.done)
                &&& now.contains_key(sid)
                &&& now[sid].chunks == send.chunks && now[sid].done == send.done
                &&& now[sid].deferred == (send.deferred && !r)
                &&& now.remove(sid) == client.waiting.outs.sending@.remove(sid)
                &&& final(client).conn == client.conn
            },
{
    assert forall|client: &mut ClientConn<B, T>, r: bool| #[trigger]
        call_ensures(ClientConn::<B, T>::pumped, (client, sid, send), r) implies final(
        client).waiting.outs.sending@.remove(sid) == client.waiting.outs.sending@.remove(sid) by {
        assert(final(client).waiting.outs.sending@.remove(sid)
            =~= client.waiting.outs.sending@.remove(sid));
    }
}

/// A new client's connection is no server's, and nothing waits or is sent.
pub proof fn a_client_begins_idle<B, T>(no_header_materialize: bool, r: ClientConn<B, T>)
    requires
        call_ensures(ClientConn::<B, T>::new, (no_header_materialize,), r),
    ensures
        !r.conn.is_server,
        r.conn.no_header_materialize == no_header_materialize,
        r.conn.actions@.len() == 0,
        forall|sid: i32| !(#[trigger] r.conn.recv@.dom().contains(sid)),
        forall|sid: i32| !(#[trigger] r.waiting.pending@.contains_key(sid)),
        forall|sid: i32| !(#[trigger] r.waiting.outs.sending@.contains_key(sid)),
{
}

/// A response and the end of a body leave what is sent as it is, and a closed
/// stream's send state goes to the pool where there is room.
pub proof fn a_client_keeps_what_it_sends<B, T>(sid: i32, end_stream: bool, code: u32)
    ensures
        forall|client: &mut ClientConn<B, T>, r: ClientEffect<T>| #[trigger]
            call_ensures(
                ClientConn::<B, T>::handle,
                (client, Action::Dispatch(sid, end_stream)),
                r,
            ) ==> final(client).waiting.outs == client.waiting.outs,
        forall|client: &mut ClientConn<B, T>, r: ClientEffect<T>| #[trigger]
            call_ensures(ClientConn::<B, T>::handle, (client, Action::Closed(sid, code)), r) ==> {
                let n = client.waiting.outs.pool.free@.len();
                let kept = client.waiting.outs.sending@.contains_key(sid) && n < 64;
                &&& kept ==> final(client).waiting.outs.pool.free@.drop_last()
                    == client.waiting.outs.pool.free@ && final(client).waiting.outs.pool.free@.len()
                    == n + 1
                &&& !kept ==> final(client).waiting.outs.pool.free@
                    == client.waiting.outs.pool.free@
            },
{
}

} // verus!
