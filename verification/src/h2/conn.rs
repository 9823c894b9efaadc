//! The state of a connection that the session's callbacks change, and what the
//! driver makes of it.
//!
//! A callback may not call the session, so it queues an action for the driver.
use vstd::prelude::*;

use bytes::Bytes;
use http::HeaderMap;
use std::collections::VecDeque;

use crate::h2::body::{RecvFrame, RecvShared};
use crate::h2::chunk::{chunk_bytes, copy_chunk, joined, joined_push};
use crate::h2::error::{Error, Kind, Reason, NO_ERROR, PROTOCOL_ERROR};
use crate::h2::head::{
    header_pushed, method_of, uri_of, HeaderBuilder, RequestHead, ResponseHead,
};
use crate::h2::idmap::{new_map, IdMap};
use crate::headers::{header_values, is_name, is_value, name_text, no_headers};
use crate::text::utf8;

verus! {

/// Frame types.
pub const FRAME_DATA: u8 = 0;

pub const FRAME_HEADERS: u8 = 1;

/// Header block categories.
pub const HCAT_REQUEST: u32 = 0;

pub const HCAT_RESPONSE: u32 = 1;

pub const HCAT_HEADERS: u32 = 3;

/// The flag of a frame that ends its stream.
pub const FLAG_END_STREAM: u8 = 1;

/// What every frame begins with.
#[derive(Clone, Copy, Debug, PartialEq, Eq, Structural)]
pub struct FrameHeader {
    pub length: usize,
    pub stream_id: i32,
    pub frame_type: u8,
    pub flags: u8,
}

impl FrameHeader {
    pub open spec fn spec_ends_stream(self) -> bool {
        self.flags & FLAG_END_STREAM != 0
    }

    pub fn ends_stream(&self) -> (r: bool)
        ensures
            r == self.spec_ends_stream(),
    {
        self.flags & FLAG_END_STREAM != 0
    }
}

/// Per-stream state on the receive side: a request on a server, a response on
/// a client.
#[derive(Debug)]
pub struct RecvStream {
    /// The head, until it is delivered.
    pub builder: Option<HeaderBuilder>,
    /// The trailers, while they come in.
    pub trailing: Option<HeaderBuilder>,
    /// The body is delivered to a consumer.
    pub wired: bool,
    /// The head is complete; a later header block holds trailers.
    pub head_done: bool,
    /// Data that came before the body was wired, in order: the head and the
    /// first of the body may come in one piece.
    pub pending: VecDeque<Bytes>,
}

/// What the driver does after the session returns.
#[derive(Debug)]
pub enum Action {
    /// A head is ready; the flag says that no body follows.
    Dispatch(i32, bool),
    /// The trailers of a body are complete.
    Trailers(i32, HeaderMap),
    /// The body is complete. This cannot wait for the stream to close, which
    /// comes only after our own side is done.
    Eof(i32),
    /// The stream closed with this code.
    Closed(i32, u32),
}

/// What comes of a request's head.
#[derive(Debug)]
pub enum Dispatched {
    /// There is nothing to dispatch.
    Ignored,
    /// Reset the stream with this code.
    Reset(u32),
    /// Call the service; the body is wired.
    Request(RequestHead),
}

/// What comes of a response's head.
#[derive(Debug)]
pub enum Delivered {
    /// There is nothing to deliver.
    Ignored,
    /// The caller gets the response; the body is wired.
    Response(ResponseHead),
    /// The status is none that a response may have: the caller's request is
    /// given up.
    Unusable,
}

/// What the session's callbacks change.
#[derive(Debug)]
pub struct ConnState {
    pub is_server: bool,
    pub recv: IdMap<RecvStream>,
    /// The bodies of streams whose heads were delivered, until both the stream
    /// has closed and the consumer is gone.
    pub bodies: IdMap<RecvShared>,
    pub actions: Vec<Action>,
    /// Count headers without keeping them.
    pub no_header_materialize: bool,
}

/// A stream whose head is coming in.
pub open spec fn opened(stream: RecvStream) -> bool {
    &&& stream.builder matches Some(b) && b.header_list_size == 0 && b.method is None && b.path
        is None && b.authority is None && b.scheme is None && b.status is None
        && header_values(b.headers) == no_headers()
    &&& stream.trailing is None
    &&& !stream.wired
    &&& !stream.head_done
    &&& stream.pending@.len() == 0
}

impl ConnState {
    /// A wired stream has a body, and every body is consistent.
    pub open spec fn wf(self) -> bool {
        &&& self.recv.wf()
        &&& self.bodies.wf()
        &&& forall|sid: i32| #[trigger]
            self.recv@.contains_key(sid) ==> (self.recv@[sid].wired
                ==> self.bodies@.contains_key(sid)) && (!self.recv@[sid].head_done
                ==> !self.recv@[sid].wired)
        &&& forall|sid: i32| #[trigger] self.bodies@.contains_key(sid) ==> self.bodies@[sid].wf()
    }

    /// The bytes of a stream's body that came and were not read.
    pub open spec fn received(self, sid: i32) -> Seq<u8> {
        if !self.recv@.contains_key(sid) {
            Seq::empty()
        } else if self.recv@[sid].wired {
            self.bodies@[sid].queued()
        } else {
            joined(self.recv@[sid].pending@)
        }
    }

    /// The consumer of a stream's body is gone.
    pub open spec fn abandoned(self, sid: i32) -> bool {
        self.recv@.contains_key(sid) && self.recv@[sid].wired && self.bodies@[sid].dropped
    }

    pub fn new(is_server: bool, no_header_materialize: bool) -> (r: Self)
        ensures
            r.wf(),
            r.is_server == is_server,
            r.no_header_materialize == no_header_materialize,
            r.recv@ == Map::<i32, RecvStream>::empty(),
            r.bodies@ == Map::<i32, RecvShared>::empty(),
            r.actions@.len() == 0,
    {
        ConnState {
            is_server,
            recv: new_map(),
            bodies: new_map(),
            actions: Vec::new(),
            no_header_materialize,
        }
    }

    /// The block of this category opens a receive stream: a request on a
    /// server, a response on a client.
    pub open spec fn opens(self, cat: u32) -> bool {
        if self.is_server {
            cat == HCAT_REQUEST
        } else {
            cat == HCAT_RESPONSE
        }
    }

    /// The block holds the trailers of a stream whose head is complete.
    pub open spec fn trails(self, sid: i32, cat: u32) -> bool {
        cat == HCAT_HEADERS && self.recv@.contains_key(sid) && self.recv@[sid].head_done
    }

    /// A header block begins.
    pub fn on_begin_headers(&mut self, frame: FrameHeader, cat: u32)
        requires
            old(self).wf(),
        ensures
            final(self).wf(),
            final(self).bodies == old(self).bodies,
            final(self).actions == old(self).actions,
            final(self).is_server == old(self).is_server,
            final(self).no_header_materialize == old(self).no_header_materialize,
            ({
                let sid = frame.stream_id;
                if frame.frame_type == FRAME_HEADERS && old(self).opens(cat) {
                    if old(self).recv@.contains_key(sid) {
                        final(self).recv@ == old(self).recv@
                    } else {
                        &&& opened(final(self).recv@[sid])
                        &&& final(self).recv@ == old(self).recv@.insert(
                            sid,
                            final(self).recv@[sid],
                        )
                    }
                } else if frame.frame_type == FRAME_HEADERS && old(self).trails(sid, cat) {
                    &&& final(self).recv@[sid].trailing matches Some(b) && b.header_list_size == 0
                        && header_values(b.headers)
                        == no_headers()
                    &&& final(self).recv@ == old(self).recv@.insert(
                        sid,
                        RecvStream {
                            trailing: final(self).recv@[sid].trailing,
                            ..old(self).recv@[sid]
                        },
                    )
                } else {
                    final(self).recv@ == old(self).recv@
                }
            }),
    {
        if frame.frame_type != FRAME_HEADERS {
            return;
        }
        let sid: i32 = frame.stream_id;
        let opens: bool = if self.is_server {
            cat == HCAT_REQUEST
        } else {
            cat == HCAT_RESPONSE
        };
        if opens {
            if !self.recv.contains_key(&sid) {
                let _ = self.recv.insert(
                    sid,
                    RecvStream {
                        builder: Some(HeaderBuilder::new()),
                        trailing: None,
                        wired: false,
                        head_done: false,
                        pending: VecDeque::new(),
                    },
                );
            }
            return;
        }
        if cat == HCAT_HEADERS {
            if let Some(mut stream) = self.recv.remove(&sid) {
                if stream.head_done {
                    stream.trailing = Some(HeaderBuilder::new());
                }
                let _ = self.recv.insert(sid, stream);
                assert(old(self).recv@[sid].head_done || self.recv@ =~= old(self).recv@);
            } else {
                assert(self.recv@ =~= old(self).recv@);
            }
            assert(old(self).trails(sid, cat) ==> self.recv@ =~= old(self).recv@.insert(
                sid,
                RecvStream { trailing: self.recv@[sid].trailing, ..old(self).recv@[sid] },
            ));
        }
    }

    /// The builder that a header of the stream goes to.
    pub open spec fn collecting(self, sid: i32) -> Option<HeaderBuilder> {
        if !self.recv@.contains_key(sid) {
            None
        } else if self.recv@[sid].head_done {
            self.recv@[sid].trailing
        } else {
            self.recv@[sid].builder
        }
    }

    /// A header of a block came. Returns whether the block may go on.
    pub fn on_header(&mut self, sid: i32, name: &[u8], value: &[u8]) -> (r: bool)
        requires
            old(self).wf(),
            old(self).collecting(sid) matches Some(b) ==> b.size_with(name@, value@) <= usize::MAX,
        ensures
            final(self).wf(),
            final(self).bodies == old(self).bodies,
            final(self).actions == old(self).actions,
            final(self).is_server == old(self).is_server,
            final(self).no_header_materialize == old(self).no_header_materialize,
            old(self).collecting(sid) is None ==> r && final(self).recv@ == old(self).recv@,
            old(self).collecting(sid) matches Some(before) ==> {
                &&& final(self).collecting(sid) is Some
                &&& if old(self).no_header_materialize {
                    r && final(self).collecting(sid)->0 == (HeaderBuilder {
                        header_list_size: before.size_with(name@, value@) as usize,
                        ..before
                    })
                } else {
                    header_pushed(before, final(self).collecting(sid)->0, name@, value@, r)
                }
                &&& final(self).recv@ == old(self).recv@.insert(
                    sid,
                    if old(self).recv@[sid].head_done {
                        RecvStream {
                            trailing: final(self).collecting(sid),
                            ..old(self).recv@[sid]
                        }
                    } else {
                        RecvStream { builder: final(self).collecting(sid), ..old(self).recv@[sid] }
                    },
                )
            },
    {
        let count_only: bool = self.no_header_materialize;
        let mut stream = match self.recv.remove(&sid) {
            Some(stream) => stream,
            None => {
                assert(self.recv@ =~= old(self).recv@);
                return true;
            },
        };
        let taken = if stream.head_done {
            stream.trailing.take()
        } else {
            stream.builder.take()
        };
        let mut ok: bool = true;
        let next = match taken {
            Some(mut builder) => {
                ok = if count_only {
                    builder.push_count_only(name, value)
                } else {
                    builder.push(name, value)
                };
                Some(builder)
            },
            None => None,
        };
        if stream.head_done {
            stream.trailing = next;
        } else {
            stream.builder = next;
        }
        let _ = self.recv.insert(sid, stream);
        proof {
            if old(self).collecting(sid) is None {
                assert(self.recv@ =~= old(self).recv@);
            } else {
                assert(self.recv@ =~= old(self).recv@.insert(sid, self.recv@[sid]));
            }
        }
        ok
    }

    /// A frame came in whole.
    pub fn on_frame_recv(&mut self, frame: FrameHeader)
        requires
            old(self).wf(),
        ensures
            final(self).wf(),
            final(self).bodies == old(self).bodies,
            final(self).is_server == old(self).is_server,
            final(self).no_header_materialize == old(self).no_header_materialize,
            ({
                let sid = frame.stream_id;
                let end = frame.spec_ends_stream();
                if frame.frame_type == FRAME_HEADERS {
                    if !old(self).recv@.contains_key(sid) {
                        final(self).recv@ == old(self).recv@ && final(self).actions@ == old(
                            self,
                        ).actions@
                    } else if !old(self).recv@[sid].head_done {
                        &&& final(self).recv@ == old(self).recv@.insert(
                            sid,
                            RecvStream { head_done: true, ..old(self).recv@[sid] },
                        )
                        &&& final(self).actions@ == old(self).actions@.push(
                            Action::Dispatch(sid, end),
                        )
                    } else {
                        &&& final(self).recv@ == old(self).recv@.insert(
                            sid,
                            RecvStream { trailing: None, ..old(self).recv@[sid] },
                        )
                        &&& final(self).actions@ == old(self).actions@ + trailer_actions(
                            sid,
                            old(self).recv@[sid].trailing,
                            end,
                        )
                    }
                } else {
                    &&& final(self).recv@ == old(self).recv@
                    &&& final(self).actions@ == if frame.frame_type == FRAME_DATA && end {
                        old(self).actions@.push(Action::Eof(sid))
                    } else {
                        old(self).actions@
                    }
                }
            }),
    {
        let sid: i32 = frame.stream_id;
        let end: bool = frame.ends_stream();
        if frame.frame_type == FRAME_HEADERS {
            if let Some(mut stream) = self.recv.remove(&sid) {
                if !stream.head_done {
                    stream.head_done = true;
                    self.actions.push(Action::Dispatch(sid, end));
                } else {
                    let trailing = stream.trailing.take();
                    if let Some(builder) = trailing {
                        self.actions.push(Action::Trailers(sid, builder.headers));
                    }
                    if end {
                        self.actions.push(Action::Eof(sid));
                    }
                    assert(self.actions@ =~= old(self).actions@ + trailer_actions(
                        sid,
                        old(self).recv@[sid].trailing,
                        end,
                    ));
                }
                let ghost changed = stream;
                let _ = self.recv.insert(sid, stream);
                assert(self.recv@ =~= old(self).recv@.insert(sid, changed));
            } else {
                assert(self.recv@ =~= old(self).recv@);
            }
        } else if frame.frame_type == FRAME_DATA && end {
            self.actions.push(Action::Eof(sid));
        }
    }

    /// A stream's body can take `n` more bytes.
    pub open spec fn takes(self, sid: i32, n: nat) -> bool {
        self.recv@.contains_key(sid) && self.recv@[sid].wired && !self.bodies@[sid].dropped
            ==> self.bodies@[sid].buffered + self.bodies@[sid].consumed_unreported + n <= usize::MAX
    }

    /// Data came. The returned number of bytes is to be reported as consumed
    /// on the connection at once, because nobody will read them.
    pub fn on_data_chunk_recv(&mut self, sid: i32, data: &[u8]) -> (r: usize)
        requires
            old(self).wf(),
            old(self).takes(sid, data@.len()),
        ensures
            final(self).wf(),
            final(self).actions == old(self).actions,
            final(self).is_server == old(self).is_server,
            final(self).no_header_materialize == old(self).no_header_materialize,
            r == if old(self).abandoned(sid) {
                data@.len()
            } else {
                0
            },
            // Nothing of a body that is still wanted is lost, also before the
            // body is wired.
            old(self).recv@.contains_key(sid) && !old(self).abandoned(sid) ==> final(
                self).received(sid) == old(self).received(sid) + data@,
            old(self).abandoned(sid) || !old(self).recv@.contains_key(sid) ==> final(self).received(
                sid,
            ) == old(self).received(sid),
            // Nothing else changes.
            if old(self).abandoned(sid) || !old(self).recv@.contains_key(sid) {
                final(self).recv@ == old(self).recv@ && final(self).bodies@ == old(self).bodies@
            } else if old(self).recv@[sid].wired {
                &&& final(self).recv@ == old(self).recv@
                &&& final(self).bodies@ == old(self).bodies@.insert(
                    sid,
                    RecvShared {
                        chunks: final(self).bodies@[sid].chunks,
                        buffered: final(self).bodies@[sid].buffered,
                        ..old(self).bodies@[sid]
                    },
                )
            } else {
                &&& final(self).bodies@ == old(self).bodies@
                &&& final(self).recv@ == old(self).recv@.insert(
                    sid,
                    RecvStream { pending: final(self).recv@[sid].pending, ..old(self).recv@[sid] },
                )
            },
    {
        let mut stream = match self.recv.remove(&sid) {
            Some(stream) => stream,
            None => {
                assert(self.recv@ =~= old(self).recv@);
                return 0;
            },
        };
        if stream.wired {
            let ghost kept = stream;
            let _ = self.recv.insert(sid, stream);
            assert(self.recv@ =~= old(self).recv@);
            let mut body = match self.bodies.remove(&sid) {
                Some(body) => body,
                None => return 0,
            };
            if body.is_dropped() {
                let _ = self.bodies.insert(sid, body);
                assert(self.bodies@ =~= old(self).bodies@);
                return data.len();
            }
            body.push_chunk(copy_chunk(data));
            let _ = self.bodies.insert(sid, body);
            assert(self.bodies@ =~= old(self).bodies@.insert(sid, self.bodies@[sid]));
            return 0;
        }
        let chunk = copy_chunk(data);
        proof {
            joined_push(stream.pending@, chunk);
        }
        stream.pending.push_back(chunk);
        let _ = self.recv.insert(sid, stream);
        assert(self.recv@ =~= old(self).recv@.insert(sid, self.recv@[sid]));
        0
    }

    /// A stream closed with `code`.
    pub fn on_stream_close(&mut self, sid: i32, code: u32)
        requires
            old(self).wf(),
        ensures
            final(self).wf(),
            final(self).actions@ == old(self).actions@.push(Action::Closed(sid, code)),
            *final(self) == (ConnState { actions: final(self).actions, ..*old(self) }),
    {
        self.actions.push(Action::Closed(sid, code));
    }

    /// Take the actions that the callbacks queued, in order.
    pub fn take_actions(&mut self) -> (r: Vec<Action>)
        requires
            old(self).wf(),
        ensures
            final(self).wf(),
            r@ == old(self).actions@,
            final(self).actions@.len() == 0,
            *final(self) == (ConnState { actions: final(self).actions, ..*old(self) }),
    {
        let mut actions: Vec<Action> = Vec::new();
        actions.append(&mut self.actions);
        assert(actions@ =~= old(self).actions@);
        actions
    }
}

/// What trailers that are complete queue.
pub open spec fn trailer_actions(sid: i32, trailing: Option<HeaderBuilder>, end: bool) -> Seq<
    Action,
> {
    let trailers = match trailing {
        Some(builder) => seq![Action::Trailers(sid, builder.headers)],
        None => Seq::empty(),
    };
    if end {
        trailers.push(Action::Eof(sid))
    } else {
        trailers
    }
}

/// A new body that holds what is pending, complete where nothing more comes.
fn wire_body(pending: VecDeque<Bytes>, end_stream: bool) -> (r: RecvShared)
    requires
        joined(pending@).len() <= usize::MAX,
    ensures
        r.wf(),
        r.queued() == joined(pending@),
        r.trailers is None && r.error is None && !r.dropped && r.consumed_unreported == 0,
        r.eof == end_stream,
{
    let mut body = RecvShared::new();
    let mut rest = pending;
    assert(body.queued() + joined(rest@) =~= joined(pending@));
    while rest.len() > 0
        invariant
            body.wf(),
            body.queued() + joined(rest@) == joined(pending@),
            joined(pending@).len() <= usize::MAX,
            body.trailers is None && body.error is None && !body.dropped && !body.eof,
            body.consumed_unreported == 0,
        decreases rest@.len(),
    {
        let ghost before = rest@;
        let ghost queued = body.queued();
        if let Some(chunk) = rest.pop_front() {
            assert(rest@ =~= before.drop_first());
            assert(joined(before) == chunk_bytes(chunk) + joined(rest@));
            assert((queued + joined(before)).len() == queued.len() + joined(before).len());
            body.push_chunk(chunk);
            assert(body.queued() + joined(rest@) =~= queued + joined(before));
        }
    }
    assert(body.queued() + joined(rest@) =~= body.queued());
    if end_stream {
        body.set_eof();
    }
    body
}

/// The stream of `sid` after its head was taken and its body wired.
pub open spec fn wires(before: ConnState, after: ConnState, sid: i32, end_stream: bool) -> bool {
    &&& after.recv@.contains_key(sid)
    &&& after.recv@[sid].pending@.len() == 0
    &&& after.recv@ == before.recv@.insert(
        sid,
        RecvStream {
            builder: None,
            wired: true,
            pending: after.recv@[sid].pending,
            ..before.recv@[sid]
        },
    )
    &&& after.bodies@ == before.bodies@.insert(sid, after.bodies@[sid])
    // What came with the head is not lost.
    &&& after.bodies@[sid].queued() == joined(before.recv@[sid].pending@)
    &&& after.bodies@[sid].eof == end_stream
    &&& after.bodies@[sid].trailers is None && after.bodies@[sid].error is None
    &&& !after.bodies@[sid].dropped && after.bodies@[sid].consumed_unreported == 0
}

/// The stream of `sid` after its head was taken, and no more.
pub open spec fn takes_head(before: ConnState, after: ConnState, sid: i32) -> bool {
    &&& after.recv@ == before.recv@.insert(
        sid,
        RecvStream { builder: None, ..before.recv@[sid] },
    )
    &&& after.bodies@ == before.bodies@
}

impl ConnState {
    /// The head of `sid`, as far as it has come and was not taken.
    pub open spec fn head(self, sid: i32) -> Option<HeaderBuilder> {
        if self.recv@.contains_key(sid) && self.recv@[sid].head_done {
            self.recv@[sid].builder
        } else {
            None
        }
    }

    /// What waits for the body of `sid` to be wired fits in a body.
    pub open spec fn pending_fits(self, sid: i32) -> bool {
        self.recv@.contains_key(sid) ==> joined(self.recv@[sid].pending@).len() <= usize::MAX
    }

    /// Wire the body of the stream, whose head is taken.
    fn wire(&mut self, sid: i32, stream: RecvStream, end_stream: bool)
        requires
            old(self).recv.wf(),
            old(self).bodies.wf(),
            joined(stream.pending@).len() <= usize::MAX,
            stream.builder is None,
            stream.head_done,
            forall|id: i32| #[trigger]
                old(self).recv@.contains_key(id) ==> (old(self).recv@[id].wired ==> old(
                    self,
                ).bodies@.contains_key(id)) && (!old(self).recv@[id].head_done
                    ==> !old(self).recv@[id].wired),
            forall|id: i32| #[trigger] old(self).bodies@.contains_key(id) ==> old(
                self,
            ).bodies@[id].wf(),
        ensures
            final(self).wf(),
            final(self).actions == old(self).actions,
            final(self).is_server == old(self).is_server,
            final(self).no_header_materialize == old(self).no_header_materialize,
            final(self).recv@.contains_key(sid),
            final(self).recv@[sid].pending@.len() == 0,
            final(self).recv@ == old(self).recv@.insert(
                sid,
                RecvStream { wired: true, pending: final(self).recv@[sid].pending, ..stream },
            ),
            final(self).bodies@ == old(self).bodies@.insert(sid, final(self).bodies@[sid]),
            final(self).bodies@[sid].queued() == joined(stream.pending@),
            final(self).bodies@[sid].eof == end_stream,
            final(self).bodies@[sid].trailers is None && final(self).bodies@[sid].error is None,
            !final(self).bodies@[sid].dropped,
            final(self).bodies@[sid].consumed_unreported == 0,
    {
        let body = wire_body(stream.pending, end_stream);
        let _ = self.bodies.insert(sid, body);
        let _ = self.recv.insert(
            sid,
            RecvStream {
                builder: stream.builder,
                trailing: stream.trailing,
                wired: true,
                head_done: stream.head_done,
                pending: VecDeque::new(),
            },
        );
        assert(self.bodies@ =~= old(self).bodies@.insert(sid, self.bodies@[sid]));
        assert(self.recv@ =~= old(self).recv@.insert(sid, self.recv@[sid]));
    }

    /// Dispatch the request of a stream whose head is complete.
    pub fn dispatch(&mut self, sid: i32, end_stream: bool) -> (r: Dispatched)
        requires
            old(self).wf(),
            old(self).pending_fits(sid),
        ensures
            final(self).wf(),
            final(self).actions == old(self).actions,
            final(self).is_server == old(self).is_server,
            final(self).no_header_materialize == old(self).no_header_materialize,
            match old(self).head(sid) {
                None => r is Ignored && final(self).recv@ == old(self).recv@ && final(self).bodies@
                    == old(self).bodies@,
                Some(head) => if old(self).no_header_materialize {
                    &&& r matches Dispatched::Request(request) && request.method@ == "POST"@
                        && request.uri@ == "http://srv-search/search.Search/Nearby"@ && header_values(
                        request.headers,
                    ) == no_headers()
                    &&& wires(*old(self), *final(self), sid, end_stream)
                } else if head.spec_request() is Some {
                    &&& r matches Dispatched::Request(request) && (
                    request.method@,
                    request.uri@,
                ) == head.spec_request()->0 && request.headers == head.headers
                    &&& wires(*old(self), *final(self), sid, end_stream)
                } else {
                    &&& r == Dispatched::Reset(PROTOCOL_ERROR)
                    &&& takes_head(*old(self), *final(self), sid)
                },
            },
    {
        let mut stream = match self.recv.remove(&sid) {
            Some(stream) => stream,
            None => {
                assert(self.recv@ =~= old(self).recv@);
                return Dispatched::Ignored;
            },
        };
        if !stream.head_done {
            let _ = self.recv.insert(sid, stream);
            assert(self.recv@ =~= old(self).recv@);
            return Dispatched::Ignored;
        }
        let builder = match stream.builder.take() {
            Some(builder) => builder,
            None => {
                let _ = self.recv.insert(sid, stream);
                assert(self.recv@ =~= old(self).recv@);
                return Dispatched::Ignored;
            },
        };
        let request = if self.no_header_materialize {
            Some(HeaderBuilder::into_request_stub())
        } else {
            builder.into_request()
        };
        match request {
            None => {
                let _ = self.recv.insert(sid, stream);
                assert(self.recv@ =~= old(self).recv@.insert(sid, self.recv@[sid]));
                Dispatched::Reset(PROTOCOL_ERROR)
            },
            Some(request) => {
                self.wire(sid, stream, end_stream);
                assert(self.recv@ =~= old(self).recv@.insert(sid, self.recv@[sid]));
                Dispatched::Request(request)
            },
        }
    }

    /// Deliver the response of a stream whose head is complete.
    ///
    /// A response without a status is not delivered at all.
    pub fn deliver_response(&mut self, sid: i32, end_stream: bool) -> (r: Delivered)
        requires
            old(self).wf(),
            old(self).pending_fits(sid),
        ensures
            final(self).wf(),
            final(self).actions == old(self).actions,
            final(self).is_server == old(self).is_server,
            final(self).no_header_materialize == old(self).no_header_materialize,
            match old(self).head(sid) {
                None => r is Ignored && final(self).recv@ == old(self).recv@ && final(self).bodies@
                    == old(self).bodies@,
                Some(head) => match head.status {
                    None => r is Ignored && takes_head(*old(self), *final(self), sid),
                    Some(status) => {
                        &&& wires(*old(self), *final(self), sid, end_stream)
                        &&& if 100 <= status < 1000 {
                            r matches Delivered::Response(response) && response.status == status
                                && response.headers == head.headers
                        } else {
                            r is Unusable
                        }
                    },
                },
            },
    {
        let mut stream = match self.recv.remove(&sid) {
            Some(stream) => stream,
            None => {
                assert(self.recv@ =~= old(self).recv@);
                return Delivered::Ignored;
            },
        };
        if !stream.head_done {
            let _ = self.recv.insert(sid, stream);
            assert(self.recv@ =~= old(self).recv@);
            return Delivered::Ignored;
        }
        let builder = match stream.builder.take() {
            Some(builder) => builder,
            None => {
                let _ = self.recv.insert(sid, stream);
                assert(self.recv@ =~= old(self).recv@);
                return Delivered::Ignored;
            },
        };
        match builder.into_response() {
            None => {
                let _ = self.recv.insert(sid, stream);
                assert(self.recv@ =~= old(self).recv@.insert(sid, self.recv@[sid]));
                Delivered::Ignored
            },
            Some(response) => {
                self.wire(sid, stream, end_stream);
                assert(self.recv@ =~= old(self).recv@.insert(sid, self.recv@[sid]));
                if 100 <= response.status && response.status < 1000 {
                    Delivered::Response(response)
                } else {
                    Delivered::Unusable
                }
            },
        }
    }

    /// The stream is open and its body wired.
    pub open spec fn is_wired(self, sid: i32) -> bool {
        self.recv@.contains_key(sid) && self.recv@[sid].wired
    }

    fn wired(&self, sid: i32) -> (r: bool)
        requires
            self.wf(),
        ensures
            r == self.is_wired(sid),
    {
        match self.recv.get(&sid) {
            Some(stream) => stream.wired,
            None => false,
        }
    }

    /// The body of the stream is complete. Its consumer is to be woken.
    pub fn eof(&mut self, sid: i32)
        requires
            old(self).wf(),
        ensures
            final(self).wf(),
            final(self).recv == old(self).recv,
            final(self).actions == old(self).actions,
            final(self).bodies@ == if old(self).is_wired(sid) {
                old(self).bodies@.insert(
                    sid,
                    RecvShared { eof: true, ..old(self).bodies@[sid] },
                )
            } else {
                old(self).bodies@
            },
            *final(self) == (ConnState { bodies: final(self).bodies, ..*old(self) }),
    {
        if self.wired(sid) {
            if let Some(mut body) = self.bodies.remove(&sid) {
                body.set_eof();
                let _ = self.bodies.insert(sid, body);
                assert(self.bodies@ =~= old(self).bodies@.insert(sid, self.bodies@[sid]));
            }
        }
    }

    /// The trailers of the stream's body are complete. Its consumer is to be
    /// woken.
    pub fn trailers(&mut self, sid: i32, trailers: HeaderMap)
        requires
            old(self).wf(),
        ensures
            final(self).wf(),
            final(self).bodies@ == if old(self).is_wired(sid) {
                old(self).bodies@.insert(
                    sid,
                    RecvShared { trailers: Some(trailers), ..old(self).bodies@[sid] },
                )
            } else {
                old(self).bodies@
            },
            *final(self) == (ConnState { bodies: final(self).bodies, ..*old(self) }),
    {
        if self.wired(sid) {
            if let Some(mut body) = self.bodies.remove(&sid) {
                body.set_trailers(trailers);
                let _ = self.bodies.insert(sid, body);
                assert(self.bodies@ =~= old(self).bodies@.insert(sid, self.bodies@[sid]));
            }
        }
    }

    /// The stream closed: its body ends, with an error where the code is one.
    /// Its consumer is to be woken.
    pub fn closed(&mut self, sid: i32, code: u32)
        requires
            old(self).wf(),
        ensures
            final(self).wf(),
            final(self).recv@ == old(self).recv@.remove(sid),
            final(self).actions == old(self).actions,
            final(self).is_server == old(self).is_server,
            final(self).no_header_materialize == old(self).no_header_materialize,
            final(self).bodies@ == if old(self).is_wired(sid) {
                old(self).bodies@.insert(sid, close_body(old(self).bodies@[sid], code))
            } else {
                old(self).bodies@
            },
    {
        let wired: bool = self.wired(sid);
        let _ = self.recv.remove(&sid);
        if wired {
            if let Some(mut body) = self.bodies.remove(&sid) {
                if code != NO_ERROR {
                    body.set_error(Error::reset(Reason(code)));
                } else {
                    body.set_eof();
                }
                let _ = self.bodies.insert(sid, body);
                assert(self.bodies@ =~= old(self).bodies@.insert(sid, self.bodies@[sid]));
            }
        }
    }

    /// The consumer of the stream's body is gone. The body is kept for the
    /// driver while the stream is open.
    pub fn release_body(&mut self, sid: i32)
        requires
            old(self).wf(),
        ensures
            final(self).wf(),
            *final(self) == (ConnState { bodies: final(self).bodies, ..*old(self) }),
            final(self).bodies@ == if !old(self).bodies@.contains_key(sid) {
                old(self).bodies@
            } else if old(self).is_wired(sid) {
                old(self).bodies@.insert(
                    sid,
                    RecvShared {
                        dropped: old(self).bodies@[sid].dropped || !old(self).bodies@[sid].ended(),
                        ..old(self).bodies@[sid]
                    },
                )
            } else {
                old(self).bodies@.remove(sid)
            },
    {
        let wired: bool = self.wired(sid);
        if let Some(mut body) = self.bodies.remove(&sid) {
            if wired {
                body.release();
                let _ = self.bodies.insert(sid, body);
                assert(self.bodies@ =~= old(self).bodies@.insert(sid, self.bodies@[sid]));
            }
        } else {
            assert(self.bodies@ =~= old(self).bodies@);
        }
    }

    /// Collect the bytes that the consumers of the `dirty` streams have read,
    /// to be reported to the session stream by stream.
    pub fn forward_consume(&mut self, dirty: &Vec<i32>) -> (r: Vec<(i32, usize)>)
        requires
            old(self).wf(),
        ensures
            final(self).wf(),
            final(self).recv == old(self).recv,
            *final(self) == (ConnState { bodies: final(self).bodies, ..*old(self) }),
            (final(self).bodies@, r@) == credits(*old(self), dirty@),
    {
        let mut out: Vec<(i32, usize)> = Vec::new();
        let mut i: usize = 0;
        while i < dirty.len()
            invariant
                i <= dirty.len(),
                self.wf(),
                *self == (ConnState { bodies: self.bodies, ..*old(self) }),
                (self.bodies@, out@) == credits(*old(self), dirty@.take(i as int)),
            decreases dirty.len() - i,
        {
            let sid: i32 = dirty[i];
            let ghost before = self.bodies@;
            assert(dirty@.take(i + 1).drop_last() =~= dirty@.take(i as int));
            if self.wired(sid) {
                if let Some(mut body) = self.bodies.remove(&sid) {
                    let n: usize = body.take_consumed();
                    let _ = self.bodies.insert(sid, body);
                    assert(self.bodies@ =~= before.insert(
                        sid,
                        RecvShared { consumed_unreported: 0, ..before[sid] },
                    ));
                    if n > 0 {
                        out.push((sid, n));
                    }
                }
            }
            i = i + 1;
        }
        assert(dirty@.take(i as int) =~= dirty@);
        out
    }
}

/// A body whose stream closed with `code`.
pub open spec fn close_body(body: RecvShared, code: u32) -> RecvShared {
    if code != NO_ERROR {
        RecvShared { error: Some(Error { kind: Kind::Reset(Reason(code)) }), ..body }
    } else {
        RecvShared { eof: true, ..body }
    }
}

/// The bodies with the credits of the `dirty` streams taken, and the credits.
pub open spec fn credits(conn: ConnState, dirty: Seq<i32>) -> (
    Map<i32, RecvShared>,
    Seq<(i32, usize)>,
)
    decreases dirty.len(),
{
    if dirty.len() == 0 {
        (conn.bodies@, Seq::empty())
    } else {
        let (bodies, out) = credits(conn, dirty.drop_last());
        let sid = dirty.last();
        if conn.is_wired(sid) {
            let n = bodies[sid].consumed_unreported;
            (
                bodies.insert(sid, RecvShared { consumed_unreported: 0, ..bodies[sid] }),
                if n > 0 {
                    out.push((sid, n))
                } else {
                    out
                },
            )
        } else {
            (bodies, out)
        }
    }
}

/// A body that came in one piece with its head is not lost: wiring the body
/// keeps everything that was received, in order.
pub proof fn a_coalesced_body_is_not_lost(
    before: ConnState,
    after: ConnState,
    sid: i32,
    end_stream: bool,
)
    requires
        before.wf(),
        before.head(sid) is Some,
        !before.recv@[sid].wired,
        wires(before, after, sid, end_stream),
    ensures
        after.received(sid) == before.received(sid),
        end_stream ==> after.bodies@[sid].eof,
{
}

/// A stream that closes with a code other than zero fails its body: the body
/// holds the reset with that code, and is otherwise as it was, so that it has
/// not ended where it had not.
pub proof fn an_error_close_fails_the_body(sid: i32, code: u32)
    requires
        code != 0,
    ensures
        forall|conn: &mut ConnState| #[trigger]
            call_ensures(ConnState::closed, (conn, sid, code), ()) && conn.recv@.contains_key(sid)
                && conn.recv@[sid].wired ==> {
                let body = final(conn).bodies@[sid];
                &&& final(conn).bodies@.contains_key(sid)
                &&& body.error == Some(Error { kind: Kind::Reset(Reason(code)) })
                &&& body.eof == conn.bodies@[sid].eof
                &&& body.chunks == conn.bodies@[sid].chunks
                &&& body.buffered == conn.bodies@[sid].buffered
                &&& body.trailers == conn.bodies@[sid].trailers
                &&& body.dropped == conn.bodies@[sid].dropped
                &&& body.consumed_unreported == conn.bodies@[sid].consumed_unreported
            },
{
}

/// A stream that closes with the code zero ends its body, without an error:
/// what had come and was not read stays.
pub proof fn a_clean_close_ends_the_body(sid: i32)
    ensures
        forall|conn: &mut ConnState| #[trigger]
            call_ensures(ConnState::closed, (conn, sid, 0u32), ()) && conn.recv@.contains_key(sid)
                && conn.recv@[sid].wired ==> {
                let body = final(conn).bodies@[sid];
                &&& final(conn).bodies@.contains_key(sid)
                &&& body.eof
                &&& body.error == conn.bodies@[sid].error
                &&& body.chunks == conn.bodies@[sid].chunks
                &&& body.buffered == conn.bodies@[sid].buffered
                &&& body.trailers == conn.bodies@[sid].trailers
                &&& body.dropped == conn.bodies@[sid].dropped
                &&& body.consumed_unreported == conn.bodies@[sid].consumed_unreported
            },
{
}

/// A close is the close of one stream: the stream is forgotten, and no other
/// stream and no other body changes. A body that was never delivered does not
/// come into being.
pub proof fn a_close_is_of_one_stream(sid: i32, code: u32, other: i32)
    ensures
        forall|conn: &mut ConnState| #[trigger]
            call_ensures(ConnState::closed, (conn, sid, code), ()) ==> {
                &&& !final(conn).recv@.contains_key(sid)
                &&& other != sid ==> (final(conn).recv@.contains_key(other)
                    <==> conn.recv@.contains_key(other)) && final(conn).recv@[other]
                    == conn.recv@[other]
                &&& other != sid || !conn.recv@.contains_key(sid) || !conn.recv@[sid].wired ==> (
                final(conn).bodies@.contains_key(other) <==> conn.bodies@.contains_key(other))
                    && final(conn).bodies@[other] == conn.bodies@[other]
                &&& final(conn).actions == conn.actions
            },
{
}

/// Once a stream has closed with an error and everything that was queued is
/// read, a poll gives the reset with the stream's code, and every poll after it
/// gives the same: the body of a stream that was reset never ends.
pub proof fn a_reset_stream_is_polled_to_its_error(sid: i32, code: u32)
    requires
        code != 0,
    ensures
        forall|conn: &mut ConnState, body: &mut RecvShared, frame: RecvFrame|
            #![trigger
                call_ensures(ConnState::closed, (conn, sid, code), ()),
                call_ensures(RecvShared::poll_frame, (body,), frame),
            ]
            call_ensures(ConnState::closed, (conn, sid, code), ()) && conn.recv@.contains_key(sid)
                && conn.recv@[sid].wired && call_ensures(RecvShared::poll_frame, (body,), frame)
                && body.error == final(conn).bodies@[sid].error ==> {
                &&& body.chunks@.len() == 0 ==> frame == RecvFrame::Failed(
                    Error { kind: Kind::Reset(Reason(code)) },
                )
                &&& body.chunks@.len() > 0 ==> frame == RecvFrame::Data(body.chunks@[0])
                    && final(body).chunks@ == body.chunks@.drop_first()
                &&& final(body).error == body.error
            },
{
}

/// Once a stream has closed without an error and its chunks and trailers are
/// read, a poll gives the end.
pub proof fn a_closed_stream_is_polled_to_its_end(sid: i32)
    ensures
        forall|conn: &mut ConnState, body: &mut RecvShared, frame: RecvFrame|
            #![trigger
                call_ensures(ConnState::closed, (conn, sid, 0u32), ()),
                call_ensures(RecvShared::poll_frame, (body,), frame),
            ]
            call_ensures(ConnState::closed, (conn, sid, 0u32), ()) && conn.recv@.contains_key(sid)
                && conn.recv@[sid].wired && conn.bodies@[sid].error is None && call_ensures(
                RecvShared::poll_frame,
                (body,),
                frame,
            ) && body.error == final(conn).bodies@[sid].error && body.eof
                == final(conn).bodies@[sid].eof && body.chunks@.len() == 0 && body.trailers is None
                ==> frame is End,
{
}

/// A server takes a block of the category zero for the head of a request, and a
/// client one of the category one for the head of a response: a stream that is
/// not known yet begins with nothing received, and one that is known stays as
/// it is. Nothing but a frame of the type one begins a block.
pub proof fn a_head_opens_its_stream(frame: FrameHeader, cat: u32)
    ensures
        forall|conn: &mut ConnState| #[trigger]
            call_ensures(ConnState::on_begin_headers, (conn, frame, cat), ()) ==> {
                let sid = frame.stream_id;
                let head = if conn.is_server {
                    cat == 0
                } else {
                    cat == 1
                };
                &&& frame.frame_type == 1 && head && !conn.recv@.contains_key(sid) ==> {
                    let stream = final(conn).recv@[sid];
                    &&& final(conn).recv@.contains_key(sid)
                    &&& stream.builder is Some
                    &&& stream.builder->0.method is None && stream.builder->0.path is None
                    &&& stream.builder->0.authority is None && stream.builder->0.scheme is None
                    &&& stream.builder->0.status is None
                    &&& stream.builder->0.header_list_size == 0
                    &&& header_values(stream.builder->0.headers) == Map::<
                        Seq<char>,
                        Seq<Seq<u8>>,
                    >::empty()
                    &&& stream.trailing is None
                    &&& !stream.wired && !stream.head_done
                    &&& stream.pending@ == Seq::<Bytes>::empty()
                }
                &&& frame.frame_type != 1 || (head && conn.recv@.contains_key(sid)) || (!head && cat
                    != 3) ==> final(conn).recv@ == conn.recv@
                &&& forall|other: i32|
                    other != sid ==> (#[trigger] final(conn).recv@.contains_key(other)
                        <==> conn.recv@.contains_key(other)) && final(conn).recv@[other]
                        == conn.recv@[other]
            },
{
    assert forall|conn: &mut ConnState| #[trigger]
        call_ensures(ConnState::on_begin_headers, (conn, frame, cat), ()) implies {
        let stream = final(conn).recv@[frame.stream_id];
        frame.frame_type == 1 && (if conn.is_server {
            cat == 0
        } else {
            cat == 1
        }) && !conn.recv@.contains_key(frame.stream_id) ==> stream.pending@ == Seq::<Bytes>::empty()
    } by {
        let pending = final(conn).recv@[frame.stream_id].pending@;
        if pending.len() == 0 {
            assert(pending =~= Seq::<Bytes>::empty());
        }
    }
}

/// A block of the category three holds trailers: it begins them anew where the
/// head of its stream is complete, and is passed over where it is not.
pub proof fn trailers_follow_a_head(frame: FrameHeader)
    requires
        frame.frame_type == 1,
    ensures
        forall|conn: &mut ConnState| #[trigger]
            call_ensures(ConnState::on_begin_headers, (conn, frame, 3u32), ()) ==> {
                let sid = frame.stream_id;
                let before = conn.recv@[sid];
                let after = final(conn).recv@[sid];
                &&& conn.recv@.contains_key(sid) && before.head_done ==> {
                    &&& final(conn).recv@.contains_key(sid)
                    &&& after.trailing is Some
                    &&& after.trailing->0.header_list_size == 0
                    &&& header_values(after.trailing->0.headers) == Map::<
                        Seq<char>,
                        Seq<Seq<u8>>,
                    >::empty()
                    &&& after.builder == before.builder && after.wired == before.wired
                    &&& after.head_done && after.pending == before.pending
                }
                &&& !conn.recv@.contains_key(sid) || !before.head_done ==> final(conn).recv@
                    == conn.recv@
            },
{
}

/// A complete block of headers ends the head of its stream once, and calls for
/// its dispatch; after that it ends the trailers that have come. The lowest flag
/// says that the stream ends with the frame.
pub proof fn a_head_is_dispatched_once(frame: FrameHeader)
    requires
        frame.frame_type == 1,
    ensures
        forall|conn: &mut ConnState| #[trigger]
            call_ensures(ConnState::on_frame_recv, (conn, frame), ()) ==> {
                let sid = frame.stream_id;
                let ends = frame.flags % 2 == 1;
                let before = conn.recv@[sid];
                let after = final(conn).recv@[sid];
                let queued = final(conn).actions@.skip(conn.actions@.len() as int);
                &&& final(conn).actions@.len() >= conn.actions@.len()
                &&& final(conn).actions@.take(conn.actions@.len() as int) == conn.actions@
                &&& !conn.recv@.contains_key(sid) ==> queued.len() == 0
                &&& conn.recv@.contains_key(sid) && !before.head_done ==> {
                    &&& queued == seq![Action::Dispatch(sid, ends)]
                    &&& after.head_done
                    &&& after.builder == before.builder && after.trailing == before.trailing
                    &&& after.wired == before.wired && after.pending == before.pending
                }
                &&& conn.recv@.contains_key(sid) && before.head_done ==> {
                    &&& before.trailing is Some && ends ==> queued == seq![
                        Action::Trailers(sid, before.trailing->0.headers),
                        Action::Eof(sid),
                    ]
                    &&& before.trailing is Some && !ends ==> queued == seq![
                        Action::Trailers(sid, before.trailing->0.headers),
                    ]
                    &&& before.trailing is None && ends ==> queued == seq![Action::Eof(sid)]
                    &&& before.trailing is None && !ends ==> queued.len() == 0
                    &&& after.trailing is None && after.head_done
                    &&& after.builder == before.builder
                    &&& after.wired == before.wired && after.pending == before.pending
                }
            },
{
    let flags = frame.flags;
    assert((flags & 1 != 0) == (flags % 2 == 1)) by (bit_vector);
    assert forall|conn: &mut ConnState| #[trigger]
        call_ensures(ConnState::on_frame_recv, (conn, frame), ()) implies {
        let sid = frame.stream_id;
        let ends = frame.flags % 2 == 1;
        let before = conn.recv@[sid];
        let queued = final(conn).actions@.skip(conn.actions@.len() as int);
        &&& final(conn).actions@.len() >= conn.actions@.len()
        &&& final(conn).actions@.take(conn.actions@.len() as int) == conn.actions@
        &&& !conn.recv@.contains_key(sid) ==> queued.len() == 0
        &&& conn.recv@.contains_key(sid) && !before.head_done ==> queued == seq![
            Action::Dispatch(sid, ends),
        ]
        &&& conn.recv@.contains_key(sid) && before.head_done ==> {
            &&& before.trailing is Some && ends ==> queued == seq![
                Action::Trailers(sid, before.trailing->0.headers),
                Action::Eof(sid),
            ]
            &&& before.trailing is Some && !ends ==> queued == seq![
                Action::Trailers(sid, before.trailing->0.headers),
            ]
            &&& before.trailing is None && ends ==> queued == seq![Action::Eof(sid)]
            &&& before.trailing is None && !ends ==> queued.len() == 0
        }
    } by {
        let sid = frame.stream_id;
        let ends = frame.flags % 2 == 1;
        let before = conn.recv@[sid];
        let was = conn.actions@;
        let now = final(conn).actions@;
        let queued = now.skip(was.len() as int);
        assert(now.take(was.len() as int) =~= was);
        if conn.recv@.contains_key(sid) {
            if !before.head_done {
                assert(queued =~= seq![Action::Dispatch(sid, ends)]);
            } else {
                assert(queued =~= trailer_actions(sid, before.trailing, ends));
                if let Some(builder) = before.trailing {
                    if ends {
                        assert(queued =~= seq![
                            Action::Trailers(sid, builder.headers),
                            Action::Eof(sid),
                        ]);
                    } else {
                        assert(queued =~= seq![Action::Trailers(sid, builder.headers)]);
                    }
                } else if ends {
                    assert(queued =~= seq![Action::Eof(sid)]);
                }
            }
        }
    }
}

/// A frame of data that ends its stream calls for the end of the body. No other
/// frame but a block of headers calls for anything.
pub proof fn the_last_data_ends_the_body(frame: FrameHeader)
    requires
        frame.frame_type != 1,
    ensures
        forall|conn: &mut ConnState| #[trigger]
            call_ensures(ConnState::on_frame_recv, (conn, frame), ()) ==> {
                &&& final(conn).recv@ == conn.recv@
                &&& final(conn).bodies == conn.bodies
                &&& frame.frame_type == 0 && frame.flags % 2 == 1 ==> final(conn).actions@
                    == conn.actions@.push(Action::Eof(frame.stream_id))
                &&& frame.frame_type != 0 || frame.flags % 2 == 0 ==> final(conn).actions@
                    == conn.actions@
            },
{
    let flags = frame.flags;
    assert((flags & 1 != 0) == (flags % 2 == 1)) by (bit_vector);
}

/// Data of a body that somebody reads is queued behind what is queued, whole;
/// data of a body that nobody reads any more is not kept, and all of it is
/// reported as consumed; data that comes before its body is delivered waits, in
/// order.
pub proof fn data_is_kept_for_its_reader(sid: i32, data: &[u8])
    ensures
        forall|conn: &mut ConnState, r: usize| #[trigger]
            call_ensures(ConnState::on_data_chunk_recv, (conn, sid, data), r)
                && conn.recv@.contains_key(sid) ==> {
                let wired = conn.recv@[sid].wired;
                let gone = conn.bodies@[sid].dropped;
                &&& wired && !gone ==> {
                    &&& r == 0
                    &&& joined(final(conn).bodies@[sid].chunks@) == joined(
                        conn.bodies@[sid].chunks@,
                    ) + data@
                    &&& final(conn).bodies@[sid].eof == conn.bodies@[sid].eof
                    &&& final(conn).bodies@[sid].error == conn.bodies@[sid].error
                    &&& final(conn).bodies@[sid].consumed_unreported
                        == conn.bodies@[sid].consumed_unreported
                }
                &&& wired && gone ==> {
                    &&& r == data@.len()
                    &&& final(conn).bodies@ == conn.bodies@
                    &&& final(conn).recv@ == conn.recv@
                }
                &&& !wired ==> {
                    &&& r == 0
                    &&& joined(final(conn).recv@[sid].pending@) == joined(
                        conn.recv@[sid].pending@,
                    ) + data@
                    &&& final(conn).bodies@ == conn.bodies@
                }
            },
{
}

/// What waited for a body is in the body once its head is delivered, whether it
/// is a request's or a response's, and the body has ended exactly where nothing
/// follows the head.
pub proof fn a_delivered_body_holds_what_waited(sid: i32, end_stream: bool)
    ensures
        forall|conn: &mut ConnState, r: Dispatched| #[trigger]
            call_ensures(ConnState::dispatch, (conn, sid, end_stream), r) && r is Request ==> {
                let body = final(conn).bodies@[sid];
                &&& conn.recv@.contains_key(sid) && conn.recv@[sid].head_done
                &&& final(conn).recv@[sid].wired && final(conn).recv@[sid].builder is None
                &&& joined(body.chunks@) == joined(conn.recv@[sid].pending@)
                &&& body.eof == end_stream
                &&& body.error is None && body.trailers is None && !body.dropped
                &&& body.consumed_unreported == 0
            },
        forall|conn: &mut ConnState, r: Delivered| #[trigger]
            call_ensures(ConnState::deliver_response, (conn, sid, end_stream), r) && (r is Response
                || r is Unusable) ==> {
                let body = final(conn).bodies@[sid];
                &&& conn.recv@.contains_key(sid) && conn.recv@[sid].head_done
                &&& final(conn).recv@[sid].wired && final(conn).recv@[sid].builder is None
                &&& joined(body.chunks@) == joined(conn.recv@[sid].pending@)
                &&& body.eof == end_stream
                &&& body.error is None && body.trailers is None && !body.dropped
                &&& body.consumed_unreported == 0
            },
{
}

/// A request whose head is complete reaches the service exactly where it has a
/// method that is one and its scheme, authority and path make a URI; the path
/// is `/` where none came. It is reset with the code of a protocol error where
/// it has not, and its body is then not delivered.
pub proof fn a_request_needs_a_method_and_a_uri(sid: i32, end_stream: bool)
    ensures
        forall|conn: &mut ConnState, r: Dispatched| #[trigger]
            call_ensures(ConnState::dispatch, (conn, sid, end_stream), r)
                && conn.recv@.contains_key(sid) && conn.recv@[sid].head_done
                && conn.recv@[sid].builder is Some && !conn.no_header_materialize ==> {
                let head = conn.recv@[sid].builder->0;
                let path = match head.path {
                    Some(path) => chunk_bytes(path),
                    None => utf8("/"@),
                };
                let scheme = match head.scheme {
                    Some(scheme) => Some(chunk_bytes(scheme)),
                    None => None,
                };
                let authority = match head.authority {
                    Some(authority) => Some(chunk_bytes(authority)),
                    None => None,
                };
                let uri = uri_of(scheme, authority, path);
                let good = head.method is Some && method_of(chunk_bytes(head.method->0)) is Some
                    && uri is Some;
                &&& good ==> (r matches Dispatched::Request(request) && request.method@ == method_of(
                    chunk_bytes(head.method->0),
                )->0 && request.uri@ == uri->0 && request.headers == head.headers)
                &&& !good ==> r == Dispatched::Reset(1) && final(conn).bodies@ == conn.bodies@
                    && final(conn).recv@[sid].builder is None && final(conn).recv@[sid].wired
                    == conn.recv@[sid].wired
            },
        forall|conn: &mut ConnState, r: Dispatched| #[trigger]
            call_ensures(ConnState::dispatch, (conn, sid, end_stream), r) && (
            !conn.recv@.contains_key(sid) || !conn.recv@[sid].head_done || conn.recv@[sid].builder
                is None) ==> r is Ignored && final(conn).recv@ == conn.recv@ && final(conn).bodies@
                == conn.bodies@,
{
}

/// A response whose head is complete reaches its caller, with its own status
/// and headers, exactly where the status has three digits. With another status
/// it is given up; without one nothing is delivered.
pub proof fn a_response_needs_a_status(sid: i32, end_stream: bool)
    ensures
        forall|conn: &mut ConnState, r: Delivered| #[trigger]
            call_ensures(ConnState::deliver_response, (conn, sid, end_stream), r)
                && conn.recv@.contains_key(sid) && conn.recv@[sid].head_done
                && conn.recv@[sid].builder is Some ==> {
                let head = conn.recv@[sid].builder->0;
                &&& head.status is Some && 100 <= head.status->0 <= 999 ==> (r matches
                    Delivered::Response(response) && response.status == head.status->0
                    && response.headers == head.headers)
                &&& head.status is Some && (head.status->0 < 100 || head.status->0 > 999) ==> r
                    is Unusable
                &&& head.status is None ==> r is Ignored && final(conn).bodies@ == conn.bodies@
                    && final(conn).recv@[sid].builder is None
            },
        forall|conn: &mut ConnState, r: Delivered| #[trigger]
            call_ensures(ConnState::deliver_response, (conn, sid, end_stream), r) && (
            !conn.recv@.contains_key(sid) || !conn.recv@[sid].head_done || conn.recv@[sid].builder
                is None) ==> r is Ignored && final(conn).recv@ == conn.recv@ && final(conn).bodies@
                == conn.bodies@,
{
}

/// The end and the trailers of a body that is delivered are set on it, and on
/// nothing else; those of a body that is not are passed over.
pub proof fn an_end_is_of_one_body(sid: i32, trailers: HeaderMap)
    ensures
        forall|conn: &mut ConnState| #[trigger]
            call_ensures(ConnState::eof, (conn, sid), ()) ==> {
                let wired = conn.recv@.contains_key(sid) && conn.recv@[sid].wired;
                &&& wired ==> final(conn).bodies@ == conn.bodies@.insert(
                    sid,
                    RecvShared { eof: true, ..conn.bodies@[sid] },
                )
                &&& !wired ==> final(conn).bodies@ == conn.bodies@
                &&& final(conn).recv == conn.recv && final(conn).actions == conn.actions
            },
        forall|conn: &mut ConnState| #[trigger]
            call_ensures(ConnState::trailers, (conn, sid, trailers), ()) ==> {
                let wired = conn.recv@.contains_key(sid) && conn.recv@[sid].wired;
                &&& wired ==> final(conn).bodies@ == conn.bodies@.insert(
                    sid,
                    RecvShared { trailers: Some(trailers), ..conn.bodies@[sid] },
                )
                &&& !wired ==> final(conn).bodies@ == conn.bodies@
                &&& final(conn).recv == conn.recv && final(conn).actions == conn.actions
            },
{
}

/// A consumer that goes before it has seen the end leaves word that nobody
/// reads on, for as long as the stream is open; one that has seen it leaves
/// none. Once the stream has closed, the body goes with its consumer.
pub proof fn a_consumer_leaves_word(sid: i32)
    ensures
        forall|conn: &mut ConnState| #[trigger]
            call_ensures(ConnState::release_body, (conn, sid), ()) && conn.bodies@.contains_key(sid)
                ==> {
                let body = conn.bodies@[sid];
                let open = conn.recv@.contains_key(sid) && conn.recv@[sid].wired;
                let seen = body.eof && body.chunks@.len() == 0 && body.trailers is None;
                &&& open && !seen ==> final(conn).bodies@ == conn.bodies@.insert(
                    sid,
                    RecvShared { dropped: true, ..body },
                )
                &&& open && seen ==> final(conn).bodies@ == conn.bodies@.insert(sid, body)
                &&& !open ==> final(conn).bodies@ == conn.bodies@.remove(sid)
                &&& final(conn).recv == conn.recv
            },
{
}

/// What the credits of the streams that were marked say of one stream.
proof fn credits_of(conn: ConnState, dirty: Seq<i32>, sid: i32)
    requires
        conn.wf(),
    ensures
        ({
            let (bodies, out) = credits(conn, dirty);
            let due = conn.recv@.contains_key(sid) && conn.recv@[sid].wired && dirty.contains(sid);
            let read = conn.bodies@[sid].consumed_unreported;
            &&& due ==> bodies[sid] == (RecvShared { consumed_unreported: 0, ..conn.bodies@[sid] })
            &&& !due ==> bodies[sid] == conn.bodies@[sid]
            &&& out.filter(|credit: (i32, usize)| credit.0 == sid) == if due && read > 0 {
                seq![(sid, read)]
            } else {
                Seq::empty()
            }
        }),
    decreases dirty.len(),
{
    reveal(Seq::filter);
    let of_sid = |credit: (i32, usize)| credit.0 == sid;
    let (after, out) = credits(conn, dirty);
    if dirty.len() == 0 {
        assert(out.filter(of_sid) =~= Seq::empty());
    } else {
        let earlier = dirty.drop_last();
        let last = dirty.last();
        credits_of(conn, earlier, sid);
        let (before, was) = credits(conn, earlier);
        assert(dirty.contains(sid) <==> earlier.contains(sid) || last == sid) by {
            if dirty.contains(sid) {
                let i = choose|i: int| 0 <= i < dirty.len() && dirty[i] == sid;
                if i < earlier.len() {
                    assert(earlier[i] == sid);
                }
            }
            if earlier.contains(sid) {
                let i = choose|i: int| 0 <= i < earlier.len() && earlier[i] == sid;
                assert(dirty[i] == sid);
            }
            assert(dirty[dirty.len() - 1] == last);
        }
        if out != was {
            assert(out.drop_last() =~= was);
            if last == sid {
                let read = before[sid].consumed_unreported;
                assert(was.filter(of_sid).push((sid, read)) =~= seq![(sid, read)]);
            }
        }
    }
}

/// A stream whose consumer has read bytes since it last was asked, and which
/// was marked, is credited with them, once however often it was marked, and its
/// count starts anew. No other stream is credited.
pub proof fn reads_of_marked_streams_are_credited(dirty: Vec<i32>, sid: i32)
    ensures
        forall|conn: &mut ConnState, r: Vec<(i32, usize)>| #[trigger]
            call_ensures(ConnState::forward_consume, (conn, &dirty), r) && conn.wf() ==> {
                let due = conn.recv@.contains_key(sid) && conn.recv@[sid].wired && dirty@.contains(
                    sid,
                );
                let read = conn.bodies@[sid].consumed_unreported;
                &&& r@.filter(|credit: (i32, usize)| credit.0 == sid) == if due && read > 0 {
                    seq![(sid, read)]
                } else {
                    Seq::empty()
                }
                &&& due ==> final(conn).bodies@[sid] == (RecvShared {
                    consumed_unreported: 0,
                    ..conn.bodies@[sid]
                })
                &&& !due ==> final(conn).bodies@[sid] == conn.bodies@[sid]
                &&& final(conn).recv == conn.recv
            },
{
    assert forall|conn: &mut ConnState, r: Vec<(i32, usize)>| #[trigger]
        call_ensures(ConnState::forward_consume, (conn, &dirty), r) && conn.wf() implies {
        let due = conn.recv@.contains_key(sid) && conn.recv@[sid].wired && dirty@.contains(sid);
        let read = conn.bodies@[sid].consumed_unreported;
        &&& r@.filter(|credit: (i32, usize)| credit.0 == sid) == if due && read > 0 {
            seq![(sid, read)]
        } else {
            Seq::empty()
        }
        &&& due ==> final(conn).bodies@[sid] == (RecvShared {
            consumed_unreported: 0,
            ..conn.bodies@[sid]
        })
        &&& !due ==> final(conn).bodies@[sid] == conn.bodies@[sid]
        &&& final(conn).recv == conn.recv
    } by {
        credits_of(*conn, dirty@, sid);
    }
}

/// What the callbacks call for is taken in the order in which they did, once.
pub proof fn actions_are_taken_in_order(sid: i32, code: u32)
    ensures
        forall|conn: &mut ConnState| #[trigger]
            call_ensures(ConnState::on_stream_close, (conn, sid, code), ()) ==> final(conn).actions@
                == conn.actions@.push(Action::Closed(sid, code)) && final(conn).recv == conn.recv
                && final(conn).bodies == conn.bodies,
        forall|conn: &mut ConnState, r: Vec<Action>| #[trigger]
            call_ensures(ConnState::take_actions, (conn,), r) ==> r@ == conn.actions@
                && final(conn).actions@.len() == 0 && final(conn).recv == conn.recv
                && final(conn).bodies == conn.bodies,
{
}

/// A header of a head that is coming in is kept in the head, and one of trailers
/// that are coming in among the trailers: a part of a request or a response that
/// its name begins with a colon for, and a regular header behind those of its
/// name. A header of no block is passed over.
pub proof fn a_header_is_kept_in_its_block(sid: i32, name: &[u8], value: &[u8])
    ensures
        forall|conn: &mut ConnState, r: bool| #[trigger]
            call_ensures(ConnState::on_header, (conn, sid, name, value), r)
                && !conn.no_header_materialize && conn.recv@.contains_key(sid) ==> {
                let trailing = conn.recv@[sid].head_done;
                let block = if trailing {
                    conn.recv@[sid].trailing
                } else {
                    conn.recv@[sid].builder
                };
                let now = if trailing {
                    final(conn).recv@[sid].trailing
                } else {
                    final(conn).recv@[sid].builder
                };
                let text = name_text(name@);
                let before = header_values(block->0.headers);
                let after = header_values(now->0.headers);
                &&& final(conn).recv@.contains_key(sid)
                &&& block is None ==> r && now is None
                &&& block is Some ==> now is Some
                &&& block is Some && name@.len() > 0 && name@[0] != 0x3a && r ==> after.contains_key(
                    text,
                ) && after[text] == (if before.contains_key(text) {
                    before[text].push(value@)
                } else {
                    seq![value@]
                })
                &&& block is Some && is_name(name@) && name@[0] != 0x3a && is_value(value@)
                    && before.dom().len() <= 6553 ==> r
                &&& block is Some && name@ == utf8(":method"@) ==> r && now->0.method is Some
                    && chunk_bytes(now->0.method->0) == value@
                &&& block is Some && name@ == utf8(":path"@) ==> r && now->0.path is Some
                    && chunk_bytes(now->0.path->0) == value@
                &&& block is Some && name@ == utf8(":authority"@) ==> r && now->0.authority is Some
                    && chunk_bytes(now->0.authority->0) == value@
                &&& block is Some && name@ == utf8(":scheme"@) ==> r && now->0.scheme is Some
                    && chunk_bytes(now->0.scheme->0) == value@
                &&& block is Some && name@.len() > 0 && name@[0] == 0x3a && !r ==> after == before
                &&& final(conn).recv@[sid].wired == conn.recv@[sid].wired
                &&& final(conn).recv@[sid].head_done == conn.recv@[sid].head_done
                &&& final(conn).recv@[sid].pending == conn.recv@[sid].pending
                &&& trailing ==> final(conn).recv@[sid].builder == conn.recv@[sid].builder
                &&& !trailing ==> final(conn).recv@[sid].trailing == conn.recv@[sid].trailing
            },
        forall|conn: &mut ConnState, r: bool| #[trigger]
            call_ensures(ConnState::on_header, (conn, sid, name, value), r)
                && !conn.recv@.contains_key(sid) ==> r && final(conn).recv@ == conn.recv@,
{
    crate::h2::head::parts_have_names_of_their_own();
    assert(Seq::<Seq<u8>>::empty().push(value@) =~= seq![value@]);
}

/// What is done to one stream leaves every other stream, and its body, as it
/// was.
pub proof fn streams_are_kept_apart(sid: i32, other: i32, end_stream: bool, trailers: HeaderMap)
    requires
        other != sid,
    ensures
        forall|conn: &mut ConnState, r: Dispatched| #[trigger]
            call_ensures(ConnState::dispatch, (conn, sid, end_stream), r) ==> {
                &&& final(conn).recv@.contains_key(other) <==> conn.recv@.contains_key(other)
                &&& final(conn).recv@[other] == conn.recv@[other]
                &&& final(conn).bodies@.contains_key(other) <==> conn.bodies@.contains_key(other)
                &&& final(conn).bodies@[other] == conn.bodies@[other]
                &&& final(conn).actions == conn.actions
            },
        forall|conn: &mut ConnState, r: Delivered| #[trigger]
            call_ensures(ConnState::deliver_response, (conn, sid, end_stream), r) ==> {
                &&& final(conn).recv@.contains_key(other) <==> conn.recv@.contains_key(other)
                &&& final(conn).recv@[other] == conn.recv@[other]
                &&& final(conn).bodies@.contains_key(other) <==> conn.bodies@.contains_key(other)
                &&& final(conn).bodies@[other] == conn.bodies@[other]
                &&& final(conn).actions == conn.actions
            },
        forall|conn: &mut ConnState, data: &[u8], r: usize| #[trigger]
            call_ensures(ConnState::on_data_chunk_recv, (conn, sid, data), r) ==> {
                &&& final(conn).recv@.contains_key(other) <==> conn.recv@.contains_key(other)
                &&& final(conn).recv@[other] == conn.recv@[other]
                &&& final(conn).bodies@.contains_key(other) <==> conn.bodies@.contains_key(other)
                &&& final(conn).bodies@[other] == conn.bodies@[other]
                &&& final(conn).actions == conn.actions
            },
        forall|conn: &mut ConnState, name: &[u8], value: &[u8], r: bool| #[trigger]
            call_ensures(ConnState::on_header, (conn, sid, name, value), r) ==> {
                &&& final(conn).recv@.contains_key(other) <==> conn.recv@.contains_key(other)
                &&& final(conn).recv@[other] == conn.recv@[other]
                &&& final(conn).bodies == conn.bodies && final(conn).actions == conn.actions
            },
        forall|conn: &mut ConnState, frame: FrameHeader| #[trigger]
            call_ensures(ConnState::on_frame_recv, (conn, frame), ()) && frame.stream_id == sid
                ==> {
                &&& final(conn).recv@.contains_key(other) <==> conn.recv@.contains_key(other)
                &&& final(conn).recv@[other] == conn.recv@[other]
                &&& final(conn).bodies == conn.bodies
            },
        forall|conn: &mut ConnState| #[trigger]
            call_ensures(ConnState::release_body, (conn, sid), ()) ==> {
                &&& final(conn).recv == conn.recv && final(conn).actions == conn.actions
                &&& final(conn).bodies@.contains_key(other) <==> conn.bodies@.contains_key(other)
                &&& final(conn).bodies@[other] == conn.bodies@[other]
            },
{
}

/// Data for a stream that is not known is dropped without a trace.
pub proof fn data_of_no_stream_is_dropped(sid: i32, data: &[u8])
    ensures
        forall|conn: &mut ConnState, r: usize| #[trigger]
            call_ensures(ConnState::on_data_chunk_recv, (conn, sid, data), r)
                && !conn.recv@.contains_key(sid) ==> r == 0 && final(conn).recv@ == conn.recv@
                && final(conn).bodies@ == conn.bodies@,
{
}

/// Where headers are only counted, each is counted and none kept, and every
/// complete head calls the service with the one request that stands for all.
pub proof fn counted_heads_are_all_the_same(
    sid: i32,
    end_stream: bool,
    name: &[u8],
    value: &[u8],
)
    ensures
        forall|conn: &mut ConnState, r: bool| #[trigger]
            call_ensures(ConnState::on_header, (conn, sid, name, value), r)
                && conn.no_header_materialize && conn.recv@.contains_key(sid)
                && !conn.recv@[sid].head_done && conn.recv@[sid].builder is Some
                && conn.recv@[sid].builder->0.header_list_size + name@.len() + value@.len() + 32
                <= usize::MAX ==> {
                let before = conn.recv@[sid].builder->0;
                &&& r
                &&& final(conn).recv@[sid].builder matches Some(after)
                &&& after.header_list_size == before.header_list_size + name@.len() + value@.len()
                    + 32
                &&& after.headers == before.headers && after.method == before.method
                &&& after.path == before.path && after.authority == before.authority
                &&& after.scheme == before.scheme && after.status == before.status
            },
        forall|conn: &mut ConnState, r: Dispatched| #[trigger]
            call_ensures(ConnState::dispatch, (conn, sid, end_stream), r)
                && conn.no_header_materialize && conn.recv@.contains_key(sid)
                && conn.recv@[sid].head_done && conn.recv@[sid].builder is Some ==> {
                &&& r matches Dispatched::Request(request)
                &&& request.method@ == "POST"@
                &&& request.uri@ == "http://srv-search/search.Search/Nearby"@
                &&& header_values(request.headers) == Map::<Seq<char>, Seq<Seq<u8>>>::empty()
            },
{
}

/// A new connection knows no stream and calls for nothing.
pub proof fn a_connection_begins_without_streams(
    is_server: bool,
    no_header_materialize: bool,
    r: ConnState,
)
    requires
        call_ensures(ConnState::new, (is_server, no_header_materialize), r),
    ensures
        r.is_server == is_server,
        r.no_header_materialize == no_header_materialize,
        forall|sid: i32| !(#[trigger] r.recv@.contains_key(sid)),
        forall|sid: i32| !(#[trigger] r.bodies@.contains_key(sid)),
        r.actions@.len() == 0,
{
}

/// A frame ends its stream exactly where its lowest flag is set.
pub proof fn the_lowest_flag_ends_a_stream(frame: FrameHeader, r: bool)
    requires
        call_ensures(FrameHeader::ends_stream, (&frame,), r),
    ensures
        r <==> frame.flags % 2 == 1,
{
    let flags = frame.flags;
    assert((flags & 1 != 0) == (flags % 2 == 1)) by (bit_vector);
}

/// What a step does not speak of it leaves as it is: data leaves the head and
/// the trailers of its stream and the marks of its body, and a delivery leaves
/// the trailers.
pub proof fn a_stream_keeps_the_rest(sid: i32, data: &[u8], end_stream: bool)
    ensures
        forall|conn: &mut ConnState, r: usize| #[trigger]
            call_ensures(ConnState::on_data_chunk_recv, (conn, sid, data), r)
                && conn.recv@.contains_key(sid) ==> {
                let (before, after) = (conn.recv@[sid], final(conn).recv@[sid]);
                &&& final(conn).recv@.contains_key(sid)
                &&& after.builder == before.builder && after.trailing == before.trailing
                &&& after.wired == before.wired && after.head_done == before.head_done
                &&& before.wired && !conn.bodies@[sid].dropped ==> final(conn).bodies@.contains_key(
                    sid,
                ) && final(conn).bodies@[sid].trailers == conn.bodies@[sid].trailers && !final(
                    conn).bodies@[sid].dropped
            },
        forall|conn: &mut ConnState, r: Dispatched| #[trigger]
            call_ensures(ConnState::dispatch, (conn, sid, end_stream), r)
                && conn.recv@.contains_key(sid) ==> {
                let (before, after) = (conn.recv@[sid], final(conn).recv@[sid]);
                &&& final(conn).recv@.contains_key(sid)
                &&& after.trailing == before.trailing && after.head_done == before.head_done
                &&& r is Request ==> after.pending@.len() == 0
                &&& !(r is Request) ==> after.pending == before.pending && after.wired
                    == before.wired
                &&& final(conn).is_server == conn.is_server
                    && final(conn).no_header_materialize == conn.no_header_materialize
            },
        forall|conn: &mut ConnState, r: Delivered| #[trigger]
            call_ensures(ConnState::deliver_response, (conn, sid, end_stream), r)
                && conn.recv@.contains_key(sid) ==> {
                let (before, after) = (conn.recv@[sid], final(conn).recv@[sid]);
                &&& final(conn).recv@.contains_key(sid)
                &&& after.trailing == before.trailing && after.head_done == before.head_done
                &&& r is Ignored ==> after.pending == before.pending && after.wired == before.wired
                &&& final(conn).is_server == conn.is_server
                    && final(conn).no_header_materialize == conn.no_header_materialize
            },
{
}

} // verus!
