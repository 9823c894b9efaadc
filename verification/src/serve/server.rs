//! How an HTTP connection is set up, and how it ends.
use vstd::prelude::*;

use crate::h2::settings::{FlowControl, KeepAliveParams, ServerParams};
use crate::serve::selective::NeededSet;
use crate::router::config::{number_of, number_upto, parse_usize};

verus! {

/// How many streams are polled per poll of their connection.
pub const INLINE_STREAM_POLL_CAP: usize = 1024;

/// The version of a connection.
#[derive(Clone, Copy, Debug, PartialEq, Eq, Structural)]
pub enum Variant {
    Http1,
    H2,
}

/// What serves a connection.
#[derive(Clone, Copy, Debug, PartialEq, Eq, Structural)]
pub enum Engine {
    /// HTTP/1, with upgrades.
    Http1,
    /// HTTP/2 by this library's session.
    Nghttp2,
    /// HTTP/2 by the stack's own server.
    Http2,
}

/// What serves a connection of this version. The engine of HTTP/2 is chosen at
/// startup.
pub fn engine(version: Variant, nghttp2: bool) -> (r: Engine)
    ensures
        r == match version {
            Variant::Http1 => Engine::Http1,
            Variant::H2 => if nghttp2 {
                Engine::Nghttp2
            } else {
                Engine::Http2
            },
        },
{
    match version {
        Variant::Http1 => Engine::Http1,
        Variant::H2 => {
            if nghttp2 {
                Engine::Nghttp2
            } else {
                Engine::Http2
            }
        },
    }
}

/// How streams are driven from their connection.
#[derive(Clone, Copy, Debug, PartialEq, Eq, Structural)]
pub struct InlineKnobs {
    /// How many are polled per poll of the connection.
    pub cap: usize,
    /// The connection is polled again right after streams complete.
    pub flush: bool,
}

/// The knobs, from the variables that set them: the cap where it is a number,
/// and no flush only for `0`.
pub fn inline_stream_knobs(cap: Option<&str>, flush: Option<&str>) -> (r: InlineKnobs)
    ensures
        r.cap == match cap {
            Some(text) => match number_upto(text@, usize::MAX as nat) {
                Some(n) => n as int,
                None => INLINE_STREAM_POLL_CAP as int,
            },
            None => INLINE_STREAM_POLL_CAP as int,
        },
        r.flush == !(flush matches Some(text) && text@ == "0"@),
{
    let cap: usize = match cap {
        Some(text) => match parse_usize(text) {
            Ok(n) => n,
            Err(_) => INLINE_STREAM_POLL_CAP,
        },
        None => INLINE_STREAM_POLL_CAP,
    };
    let flush: bool = match flush {
        Some(text) => text.to_owned() != "0".to_owned(),
        None => true,
    };
    InlineKnobs { cap, flush }
}

/// How an HTTP/2 server is configured. What is `None` keeps its default, but
/// the streams, the frames and the resets, whose limits are handed on.
#[derive(Debug)]
pub struct Http2Plan {
    pub adaptive_window: bool,
    pub initial_stream_window_size: Option<u32>,
    pub initial_connection_window_size: Option<u32>,
    pub keep_alive: Option<KeepAliveParams>,
    pub max_concurrent_streams: Option<u32>,
    pub max_frame_size: Option<u32>,
    pub max_pending_accept_reset_streams: Option<usize>,
    pub max_header_list_size: Option<u32>,
    pub max_send_buf_size: Option<usize>,
    pub needed: Option<NeededSet>,
    /// A `date` is added to a response that has none.
    pub auto_date_header: bool,
    /// Streams are driven from their connection, without a task for each.
    pub inline: Option<InlineKnobs>,
}

impl Http2Plan {
    /// The configuration for the parameters. In selective mode a relayed
    /// response carries the backend's `date` where the server does not see it,
    /// so none is added.
    pub fn new(params: &ServerParams, needed: Option<NeededSet>, inline: Option<InlineKnobs>) -> (r:
        Self)
        ensures
            r.adaptive_window == (params.flow_control == Some(FlowControl::Adaptive)),
            match params.flow_control {
                Some(
                    FlowControl::Fixed {
                        initial_stream_window_size,
                        initial_connection_window_size,
                    },
                ) => r.initial_stream_window_size == Some(initial_stream_window_size)
                    && r.initial_connection_window_size == Some(initial_connection_window_size),
                _ => r.initial_stream_window_size is None && r.initial_connection_window_size
                    is None,
            },
            r.keep_alive == params.keep_alive,
            r.max_concurrent_streams == params.max_concurrent_streams,
            r.max_frame_size == params.max_frame_size,
            r.max_pending_accept_reset_streams == params.max_pending_accept_reset_streams,
            r.max_header_list_size == params.max_header_list_size,
            r.max_send_buf_size == params.max_send_buf_size,
            r.needed == needed,
            r.auto_date_header == (needed is None),
            r.inline == inline,
    {
        let (adaptive, stream, connection): (bool, Option<u32>, Option<u32>) = match params.flow_control {
            None => (false, None, None),
            Some(FlowControl::Adaptive) => (true, None, None),
            Some(
                FlowControl::Fixed { initial_stream_window_size, initial_connection_window_size },
            ) => (
                false,
                Some(initial_stream_window_size),
                Some(initial_connection_window_size),
            ),
        };
        let auto_date_header: bool = needed.is_none();
        Http2Plan {
            adaptive_window: adaptive,
            initial_stream_window_size: stream,
            initial_connection_window_size: connection,
            keep_alive: params.keep_alive,
            max_concurrent_streams: params.max_concurrent_streams,
            max_frame_size: params.max_frame_size,
            max_pending_accept_reset_streams: params.max_pending_accept_reset_streams,
            max_header_list_size: params.max_header_list_size,
            max_send_buf_size: params.max_send_buf_size,
            needed,
            auto_date_header,
            inline,
        }
    }
}

/// What ends a connection.
#[derive(Clone, Copy, Debug, PartialEq, Eq, Structural)]
pub enum ConnEnd {
    /// The connection is over.
    Client,
    /// The process shuts down.
    Process,
    /// The stack tears the connection down.
    Stack,
}

/// How a connection is brought to its end.
#[derive(Clone, Copy, Debug, PartialEq, Eq, Structural)]
pub struct Closing {
    /// The peer is told to open no more streams, and those that are open are
    /// waited for.
    pub graceful: bool,
    /// The process is held back until then.
    pub hold_process: bool,
}

/// How a connection is brought to its end.
pub fn closing(end: ConnEnd) -> (r: Closing)
    ensures
        r.graceful == (end != ConnEnd::Client),
        r.hold_process == (end == ConnEnd::Process),
{
    match end {
        ConnEnd::Client => Closing { graceful: false, hold_process: false },
        ConnEnd::Process => Closing { graceful: true, hold_process: true },
        ConnEnd::Stack => Closing { graceful: true, hold_process: false },
    }
}

/// How a request is handed to the service of its connection.
#[derive(Clone, Copy, Debug, PartialEq, Eq, Structural)]
pub enum CallInPlace {
    /// The service itself takes it.
    InPlace,
    /// A copy of the service is waited for, and takes it.
    Copy,
}

/// How a request is handed to the service, which was asked whether it is ready
/// (`Some(true)`), still busy (`None`) or broken (`Some(false)`).
pub fn call_in_place(readiness: Option<bool>) -> (r: CallInPlace)
    ensures
        r == CallInPlace::InPlace <==> readiness == Some(true),
{
    match readiness {
        Some(true) => CallInPlace::InPlace,
        _ => CallInPlace::Copy,
    }
}

/// HTTP/1 is served by its own engine, and HTTP/2 by the one that was chosen.
pub proof fn a_version_has_its_engine(version: Variant, nghttp2: bool, r: Engine)
    requires
        call_ensures(engine, (version, nghttp2), r),
    ensures
        r == Engine::Http1 <==> version == Variant::Http1,
        r == Engine::Nghttp2 <==> version == Variant::H2 && nghttp2,
        r == Engine::Http2 <==> version == Variant::H2 && !nghttp2,
{
}

/// A connection whose client is done just ends; one that the process or the
/// stack ends is brought down gracefully, and only the process waits for it.
pub proof fn an_end_is_graceful_but_the_clients(end: ConnEnd, r: Closing)
    requires
        call_ensures(closing, (end,), r),
    ensures
        end == ConnEnd::Client ==> !r.graceful && !r.hold_process,
        end == ConnEnd::Process ==> r.graceful && r.hold_process,
        end == ConnEnd::Stack ==> r.graceful && !r.hold_process,
{
}

/// Only a service that is ready takes a request in place.
pub proof fn a_ready_service_takes_in_place(readiness: Option<bool>, r: CallInPlace)
    requires
        call_ensures(call_in_place, (readiness,), r),
    ensures
        readiness is Some && readiness->0 ==> r == CallInPlace::InPlace,
        readiness is None || !readiness->0 ==> r == CallInPlace::Copy,
{
}

/// The cap is the number that is set, where it is one, and 1024 otherwise; there
/// is a flush unless `0` is set.
pub proof fn knobs_are_set_or_default(cap: Option<&str>, flush: Option<&str>, r: InlineKnobs)
    requires
        call_ensures(inline_stream_knobs, (cap, flush), r),
    ensures
        cap is None ==> r.cap == 1024,
        cap is Some && number_of(cap->0@) is None ==> r.cap == 1024,
        cap is Some && (number_of(cap->0@) is Some && number_of(cap->0@)->0 <= usize::MAX) ==> r.cap
            == number_of(cap->0@)->0,
        flush is None ==> r.flush,
        flush is Some ==> r.flush == (flush->0@ != "0"@),
{
}

/// A server is configured as its parameters say; its windows are adaptive, fixed
/// or left alone as its flow control is; and a `date` is added exactly where
/// headers are not selected.
pub proof fn a_plan_follows_its_parameters(
    params: ServerParams,
    needed: Option<NeededSet>,
    inline: Option<InlineKnobs>,
    r: Http2Plan,
)
    requires
        call_ensures(Http2Plan::new, (&params, needed, inline), r),
    ensures
        r.auto_date_header <==> needed is None,
        r.needed == needed,
        r.inline == inline,
        r.keep_alive == params.keep_alive,
        r.max_concurrent_streams == params.max_concurrent_streams,
        r.max_frame_size == params.max_frame_size,
        r.max_header_list_size == params.max_header_list_size,
        r.max_send_buf_size == params.max_send_buf_size,
        r.max_pending_accept_reset_streams == params.max_pending_accept_reset_streams,
        match params.flow_control {
            None => !r.adaptive_window && r.initial_stream_window_size is None
                && r.initial_connection_window_size is None,
            Some(FlowControl::Adaptive) => r.adaptive_window && r.initial_stream_window_size is None
                && r.initial_connection_window_size is None,
            Some(
                FlowControl::Fixed { initial_stream_window_size, initial_connection_window_size },
            ) => !r.adaptive_window && r.initial_stream_window_size == Some(
                initial_stream_window_size,
            ) && r.initial_connection_window_size == Some(initial_connection_window_size),
        },
{
}

} // verus!
