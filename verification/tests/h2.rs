use bytes::Bytes;
use dmesh::h2::body::{BodyPoll, RecvFrame, RecvShared, SendBody, SendRead};
use dmesh::h2::client::{ClientConn, ClientEffect};
use dmesh::h2::conn::{
    Action, ConnState, FrameHeader, FLAG_END_STREAM, FRAME_DATA, FRAME_HEADERS, HCAT_HEADERS,
    HCAT_REQUEST, HCAT_RESPONSE,
};
use dmesh::h2::error::{Error, Kind, Reason, CANCEL, INTERNAL_ERROR, PROTOCOL_ERROR, REFUSED_STREAM};
use dmesh::h2::fields::{fill_request_nv, fill_response_nv, fill_trailer_nv, Nv};
use dmesh::h2::head::{HeaderBuilder, RequestHead, ResponseHead};
use dmesh::h2::server::{ServerConn, ServerEffect};
use dmesh::h2::streams::{Outs, Request, Response, ResponseSubmit};
use http::HeaderMap;
use std::collections::VecDeque;

type Body = VecDeque<BodyPoll>;

fn full(bytes: &'static [u8]) -> Body {
    VecDeque::from(vec![BodyPoll::Data(Bytes::from_static(bytes))])
}

fn headers(list: &[(&'static str, &'static str)]) -> HeaderMap {
    let mut map = HeaderMap::new();
    for (name, value) in list {
        map.append(*name, http::HeaderValue::from_static(value));
    }
    map
}

fn frame(sid: i32, frame_type: u8, end: bool) -> FrameHeader {
    FrameHeader {
        length: 0,
        stream_id: sid,
        frame_type,
        flags: if end { FLAG_END_STREAM } else { 0 },
    }
}

/// Hand a header block to the receiving side.
fn deliver_block(to: &mut ConnState, sid: i32, cat: u32, nv: &[Nv], end: bool) {
    to.on_begin_headers(frame(sid, FRAME_HEADERS, end), cat);
    for pair in nv {
        assert!(to.on_header(sid, &pair.name, &pair.value));
    }
    to.on_frame_recv(frame(sid, FRAME_HEADERS, end));
}

/// Poll the body that a sending side holds and hand what it says to the
/// receiving side, in frames of at most `max` bytes. Says how many it took.
fn deliver_body(outs: &mut Outs<Body>, to: &mut ConnState, sid: i32, max: usize) -> usize {
    let mut frames = 0;
    loop {
        let mut send = outs.take(sid).unwrap();
        while send.wants_poll() {
            let polled = send.body.as_mut().unwrap().pop_front().unwrap_or(BodyPoll::End);
            if !send.pump(polled).1 {
                break;
            }
        }
        loop {
            match send.read(max) {
                SendRead::Data(data) => {
                    frames += 1;
                    assert_eq!(to.on_data_chunk_recv(sid, &data), 0);
                    to.on_frame_recv(frame(sid, FRAME_DATA, false));
                }
                SendRead::Deferred => break,
                SendRead::End(None) => {
                    to.on_frame_recv(frame(sid, FRAME_DATA, true));
                    return frames;
                }
                SendRead::End(Some(nv)) => {
                    deliver_block(to, sid, HCAT_HEADERS, &nv, true);
                    return frames;
                }
                SendRead::Reset(code) => panic!("reset {code}"),
            }
        }
        send.resume();
        outs.put_back(sid, send);
    }
}

/// Read a body to its end.
fn collect(conn: &mut ConnState, sid: i32) -> (Vec<u8>, Option<HeaderMap>) {
    let mut body = conn.bodies.remove(&sid).unwrap();
    let mut bytes = Vec::new();
    let mut trailers = None;
    loop {
        match body.poll_frame() {
            RecvFrame::Data(data) => bytes.extend_from_slice(&data),
            RecvFrame::Trailers(map) => trailers = Some(map),
            RecvFrame::End => break,
            RecvFrame::Pending => panic!("the body has not ended"),
            RecvFrame::Failed(error) => panic!("{error:?}"),
        }
    }
    conn.bodies.insert(sid, body);
    (bytes, trailers)
}

struct Wire {
    client: ClientConn<Body, i32>,
    server: ServerConn<Body>,
    next: i32,
}

fn connect() -> Wire {
    Wire { client: ClientConn::new(false), server: ServerConn::new(false), next: 1 }
}

impl Wire {
    fn calls(&mut self) -> Vec<(i32, RequestHead)> {
        let mut calls = Vec::new();
        for action in self.server.conn.take_actions() {
            match self.server.handle(action) {
                ServerEffect::Call(sid, head) => calls.push((sid, head)),
                ServerEffect::Nothing => {}
                ServerEffect::Reset(sid, code) => panic!("reset {sid} {code}"),
            }
        }
        calls
    }

    /// Send a request and hand its head to the service.
    fn request(&mut self, request: Request, body: Option<Body>) -> (i32, RequestHead) {
        let sid = self.next;
        self.next += 2;
        let with_body = body.is_some();
        let refused = self.client.waiting.submit(sid, body.map(SendBody::new), sid);
        assert!(refused.is_none());
        deliver_block(&mut self.server.conn, sid, HCAT_REQUEST, &request.block(), !with_body);
        let mut calls = self.calls();
        if with_body {
            deliver_body(&mut self.client.waiting.outs, &mut self.server.conn, sid, 16384);
            assert!(self.calls().is_empty());
        }
        assert_eq!(calls.len(), 1);
        calls.remove(0)
    }

    /// Answer a stream and read the response.
    fn respond(
        &mut self,
        sid: i32,
        status: &str,
        headers: HeaderMap,
        body: Option<Body>,
    ) -> (ResponseHead, Vec<u8>, Option<HeaderMap>, usize) {
        let response = Response { status: status.to_string(), headers, body };
        let mut frames = 0;
        match self.server.outs.submit_response(sid, Some(response)) {
            ResponseSubmit::Head(nv, with_body) => {
                deliver_block(&mut self.client.conn, sid, HCAT_RESPONSE, &nv, !with_body);
                if with_body {
                    frames = deliver_body(
                        &mut self.server.outs,
                        &mut self.client.conn,
                        sid,
                        16384,
                    );
                }
            }
            ResponseSubmit::Reset(code) => panic!("reset {code}"),
        }
        let mut answered = None;
        for action in self.client.conn.take_actions() {
            match self.client.handle(action) {
                ClientEffect::Respond(token, id, head) => {
                    assert_eq!((token, id), (sid, sid));
                    answered = Some(head);
                }
                ClientEffect::Nothing => {}
                other => panic!("{other:?}"),
            }
        }
        let (bytes, trailers) = collect(&mut self.client.conn, sid);
        (answered.unwrap(), bytes, trailers, frames)
    }
}

fn get(path: &str) -> Request {
    Request {
        method: "GET".to_string(),
        scheme: Some("http".to_string()),
        authority: Some("example.com".to_string()),
        path_and_query: Some(path.to_string()),
        headers: HeaderMap::new(),
    }
}

#[test]
fn get_with_empty_response() {
    let mut wire = connect();
    let request = Request { headers: headers(&[("x-test", "yes")]), ..get("/hello") };
    let (sid, head) = wire.request(request, None);
    assert_eq!(head.method, "GET");
    assert_eq!(head.uri, "http://example.com/hello");
    assert_eq!(head.headers.get("x-test").unwrap(), "yes");
    assert_eq!(collect(&mut wire.server.conn, sid).0, b"");

    let (rsp, body, _, _) = wire.respond(sid, "204", headers(&[("x-server", "ng")]), None);
    assert_eq!(rsp.status, 204);
    assert_eq!(rsp.headers.get("x-server").unwrap(), "ng");
    assert!(body.is_empty());
}

#[test]
fn post_echoes_request_body() {
    let mut wire = connect();
    let request = Request { method: "POST".to_string(), ..get("/echo") };
    let (sid, _) = wire.request(request, Some(full(b"ping-pong-payload")));
    let (bytes, _) = collect(&mut wire.server.conn, sid);
    let echo = VecDeque::from(vec![BodyPoll::Data(Bytes::from(bytes))]);
    let (rsp, body, _, _) = wire.respond(sid, "200", HeaderMap::new(), Some(echo));
    assert_eq!(rsp.status, 200);
    assert_eq!(&body[..], b"ping-pong-payload");
}

#[test]
fn many_streams_on_one_connection() {
    let mut wire = connect();
    for i in 0..64u32 {
        let (sid, head) = wire.request(get(&format!("/n/{i}")), None);
        let path = head.uri.strip_prefix("http://example.com").unwrap().to_string();
        let body = VecDeque::from(vec![BodyPoll::Data(Bytes::from(path))]);
        let (rsp, body, _, _) = wire.respond(sid, "200", HeaderMap::new(), Some(body));
        assert_eq!(rsp.status, 200);
        assert_eq!(&body[..], format!("/n/{i}").as_bytes());
    }
}

#[test]
fn grpc_trailers_round_trip() {
    let mut wire = connect();
    let request = Request {
        method: "POST".to_string(),
        authority: Some("srv".to_string()),
        headers: headers(&[("content-type", "application/grpc")]),
        ..get("/pkg.Svc/Method")
    };
    let (sid, _) = wire.request(request, None);
    let body = VecDeque::from(vec![
        BodyPoll::Data(Bytes::from_static(b"\0\0\0\0\x05hello")),
        BodyPoll::Trailers(headers(&[("grpc-status", "0")])),
    ]);
    let (rsp, data, trailers, _) =
        wire.respond(sid, "200", headers(&[("content-type", "application/grpc")]), Some(body));
    assert_eq!(rsp.status, 200);
    assert_eq!(&data[..], b"\0\0\0\0\x05hello");
    let trailers = trailers.expect("trailers present");
    assert_eq!(trailers.get("grpc-status").unwrap(), "0");
}

#[test]
fn streaming_response_across_many_frames() {
    const CHUNK: usize = 16 * 1024;
    const N: usize = 40;
    let mut wire = connect();
    let (sid, _) = wire.request(get("/big"), None);
    let body = (0..N).map(|_| BodyPoll::Data(Bytes::from(vec![7u8; CHUNK]))).collect();
    let (_, body, _, frames) = wire.respond(sid, "200", HeaderMap::new(), Some(body));
    assert_eq!(body.len(), CHUNK * N);
    assert!(body.iter().all(|&b| b == 7));
    assert_eq!(frames, N);
}

#[test]
fn request_body_coalesced_with_headers_is_not_lost() {
    const PAYLOAD: &[u8] = b"coalesced-request-body-payload";
    let mut wire = connect();
    let request = Request { method: "POST".to_string(), ..get("/echo") };
    // The whole request is received before the head is dispatched.
    deliver_block(&mut wire.server.conn, 1, HCAT_REQUEST, &request.block(), false);
    assert_eq!(wire.server.conn.on_data_chunk_recv(1, PAYLOAD), 0);
    wire.server.conn.on_frame_recv(frame(1, FRAME_DATA, true));
    let calls = wire.calls();
    assert_eq!(calls.len(), 1);
    assert_eq!(
        collect(&mut wire.server.conn, 1).0,
        PAYLOAD,
        "request body coalesced with HEADERS into one read was dropped by the server"
    );
}

#[test]
fn large_request_body_backpressure() {
    let mut wire = connect();
    let request = Request { method: "POST".to_string(), ..get("/up") };
    let body = VecDeque::from(vec![BodyPoll::Data(Bytes::from(vec![3u8; 1024 * 1024]))]);
    let (sid, _) = wire.request(request, Some(body));
    let (bytes, _) = collect(&mut wire.server.conn, sid);
    assert_eq!(bytes.len(), 1024 * 1024);
    // Every byte that was read is credited, once.
    assert_eq!(wire.server.conn.forward_consume(&vec![sid]), vec![(sid, 1024 * 1024)]);
    assert!(wire.server.conn.forward_consume(&vec![sid]).is_empty());
    let (rsp, _, _, _) = wire.respond(sid, "200", HeaderMap::new(), None);
    assert_eq!(rsp.status, 200);
}

#[test]
fn connection_headers_are_not_sent() {
    let mut request = get("/x");
    request.headers = headers(&[
        ("connection", "close"),
        ("keep-alive", "1"),
        ("transfer-encoding", "chunked"),
        ("upgrade", "h2c"),
        ("proxy-connection", "close"),
        ("host", "other"),
        ("x-kept", "yes"),
    ]);
    let block = request.block();
    let names: Vec<&[u8]> = block.iter().map(|nv| &nv.name[..]).collect();
    assert!(names.contains(&&b"x-kept"[..]));
    assert!(!names.contains(&&b"connection"[..]));
    assert!(!names.contains(&&b"transfer-encoding"[..]));
    assert!(!names.contains(&&b"upgrade"[..]));
}

#[test]
fn a_head_without_a_method_is_a_protocol_error() {
    let mut wire = connect();
    let block = vec![Nv { name: b":path".to_vec(), value: b"/x".to_vec() }];
    deliver_block(&mut wire.server.conn, 1, HCAT_REQUEST, &block, true);
    let actions = wire.server.conn.take_actions();
    assert!(matches!(actions[..], [Action::Dispatch(1, true)]));
    for action in actions {
        assert!(matches!(
            wire.server.handle(action),
            ServerEffect::Reset(1, code) if code == PROTOCOL_ERROR
        ));
    }
}

#[test]
fn a_reset_reaches_the_waiting_request() {
    let mut wire = connect();
    assert!(wire.client.waiting.submit(1, None, 1).is_none());
    let closed = Action::Closed(1, REFUSED_STREAM);
    match wire.client.handle(closed) {
        ClientEffect::Fail(1, error) => {
            assert_eq!(error, Error::reset(Reason(REFUSED_STREAM)));
        }
        other => panic!("{other:?}"),
    }
    let (_, refused) = wire.client.waiting.submit(0, None, 9).unwrap();
    assert_eq!(refused.kind, Kind::Session(Reason(REFUSED_STREAM)));
}

#[test]
fn a_failed_body_resets_its_stream() {
    let mut send: SendBody<Body> = SendBody::new(VecDeque::new());
    assert_eq!(send.pump(BodyPoll::Failed), (true, false));
    assert!(matches!(send.read(10), SendRead::Reset(code) if code == INTERNAL_ERROR));
    send.reset(VecDeque::new());
    assert!(matches!(send.read(10), SendRead::Deferred));
    assert!(!send.resume());
    send.pump(BodyPoll::Data(Bytes::from_static(b"0123456789")));
    assert!(send.resume());
    assert!(matches!(send.read(4), SendRead::Data(data) if data == b"0123"));
    assert!(matches!(send.read(40), SendRead::Data(data) if data == b"456789"));
    send.pump(BodyPoll::End);
    assert!(matches!(send.read(40), SendRead::End(None)));
}

#[test]
fn an_abandoned_body_is_credited_at_once() {
    let mut wire = connect();
    let request = Request { method: "POST".to_string(), ..get("/x") };
    deliver_block(&mut wire.server.conn, 1, HCAT_REQUEST, &request.block(), false);
    assert_eq!(wire.calls().len(), 1);
    wire.server.conn.release_body(1);
    assert_eq!(wire.server.conn.on_data_chunk_recv(1, b"nobody"), 6);
}

#[test]
fn a_body_that_failed_says_so() {
    let mut body = RecvShared::new();
    body.push_chunk(Bytes::from_static(b"part"));
    body.set_error(Error::reset(Reason(CANCEL)));
    assert!(matches!(body.poll_frame(), RecvFrame::Data(data) if &data[..] == b"part"));
    assert!(matches!(
        body.poll_frame(),
        RecvFrame::Failed(error) if error.reason() == Some(Reason(CANCEL))
    ));
    assert_eq!(body.take_consumed(), 4);
}

#[test]
fn a_head_is_built_from_its_headers() {
    let mut head = HeaderBuilder::new();
    assert!(head.push(b":method", b"PUT"));
    assert!(head.push(b":scheme", b"https"));
    assert!(head.push(b":authority", b"a.test:8443"));
    assert!(head.push(b":path", b"/p?q=1"));
    assert!(head.push(b"x-a", b"1"));
    assert!(head.push(b"x-a", b"2"));
    let request = head.into_request().unwrap();
    assert_eq!(request.method, "PUT");
    assert_eq!(request.uri, "https://a.test:8443/p?q=1");
    let values: Vec<_> = request.headers.get_all("x-a").iter().collect();
    assert_eq!(values, ["1", "2"]);

    let mut bare = HeaderBuilder::new();
    assert!(bare.push(b":method", b"GET"));
    assert_eq!(bare.into_request().unwrap().uri, "/");

    let mut unusable = HeaderBuilder::new();
    assert!(unusable.push(b":method", b"bad method"));
    assert!(unusable.push(b":path", b"/"));
    assert!(unusable.into_request().is_none());
    assert!(HeaderBuilder::new().into_response().is_none());
    let mut response = HeaderBuilder::new();
    assert!(response.push(b":status", b"503"));
    assert_eq!(response.into_response().unwrap().status, 503);
}

#[test]
fn a_block_lists_the_headers_in_the_order_of_the_map() {
    let mut map = headers(&[("x-b", "1"), ("x-a", "2"), ("keep-alive", "3"), ("x-c", "4")]);
    map.append("x-b", "5".parse().unwrap());
    let listed: Vec<(Vec<u8>, Vec<u8>)> = map
        .iter()
        .filter(|(name, _)| *name != "keep-alive")
        .map(|(name, value)| (name.as_str().as_bytes().to_vec(), value.as_bytes().to_vec()))
        .collect();
    let block = |nv: Vec<Nv>| -> Vec<(Vec<u8>, Vec<u8>)> {
        nv.into_iter().map(|pair| (pair.name, pair.value)).collect()
    };
    let trailers = block(fill_trailer_nv(&map));
    assert_eq!(trailers, listed);
    assert_eq!(listed.len(), 4);
    let response = block(fill_response_nv("200", &map));
    assert_eq!(response[0], (b":status".to_vec(), b"200".to_vec()));
    assert_eq!(response[1..], listed[..]);
    let request = block(fill_request_nv("GET", "http", "", "/", &map));
    assert_eq!(request[2], (b":path".to_vec(), b"/".to_vec()));
    assert_eq!(request[3..], listed[..]);
}
