use dmesh::h2::settings::{FlowControl, KeepAliveParams, ServerParams};
use dmesh::serve::selective::{needed_set, MAX_NEEDED};
use dmesh::serve::server::{
    call_in_place, closing, engine, inline_stream_knobs, CallInPlace, Closing, ConnEnd, Engine,
    Http2Plan, InlineKnobs, Variant,
};
use dmesh::serve::tap::{Body, BodyEnd, Polled, TapHttp};
use dmesh::workers::{num_workers, server_name, shard_core, shard_name, worker_name, EX_USAGE};

const DEFAULT: [&str; 6] = [
    "content-type",
    "grpc-status",
    "grpc-message",
    "l5d-proxy-error",
    "l5d-proxy-connection",
    "l5d-require-id",
];

#[test]
fn the_default_names_are_needed() {
    assert!(needed_set(false, Some("x-a"), true, true).is_none());
    let set = needed_set(true, None, true, false).unwrap();
    assert_eq!(set.names, DEFAULT);
    assert!(set.trust_reps && !set.stats);
}

#[test]
fn further_names_are_appended() {
    let set = needed_set(true, Some(" X-Trace ,, bad name,+wide,x-last"), false, true).unwrap();
    let more = [
        "x-trace",
        "content-length",
        "te",
        "grpc-timeout",
        "user-agent",
        "l5d-dst-canonical",
        "l5d-orig-proto",
        "x-last",
    ];
    assert_eq!(set.names, [&DEFAULT[..], &more[..]].concat());
    assert!(!set.trust_reps && set.stats);
}

#[test]
fn the_engine_is_chosen_by_version() {
    assert_eq!(engine(Variant::Http1, true), Engine::Http1);
    assert_eq!(engine(Variant::H2, true), Engine::Nghttp2);
    assert_eq!(engine(Variant::H2, false), Engine::Http2);
}

#[test]
fn inline_knobs_have_defaults() {
    assert_eq!(inline_stream_knobs(None, None), InlineKnobs { cap: 1024, flush: true });
    assert_eq!(inline_stream_knobs(Some("64"), Some("0")), InlineKnobs { cap: 64, flush: false });
    assert_eq!(inline_stream_knobs(Some("x"), Some("1")), InlineKnobs { cap: 1024, flush: true });
}

fn params() -> ServerParams {
    ServerParams {
        flow_control: None,
        keep_alive: Some(KeepAliveParams { interval: 10, timeout: 3 }),
        max_concurrent_streams: Some(100),
        max_frame_size: None,
        max_header_list_size: Some(4096),
        max_pending_accept_reset_streams: Some(20),
        max_send_buf_size: None,
    }
}

#[test]
fn parameters_become_a_plan() {
    let plan = Http2Plan::new(&params(), None, None);
    assert!(!plan.adaptive_window && plan.initial_stream_window_size.is_none());
    assert_eq!(plan.keep_alive, params().keep_alive);
    assert_eq!(plan.max_concurrent_streams, Some(100));
    assert_eq!(plan.max_header_list_size, Some(4096));
    assert_eq!(plan.max_pending_accept_reset_streams, Some(20));
    assert!(plan.auto_date_header);

    let adaptive = ServerParams { flow_control: Some(FlowControl::Adaptive), ..params() };
    assert!(Http2Plan::new(&adaptive, None, None).adaptive_window);
    let fixed = ServerParams {
        flow_control: Some(FlowControl::Fixed {
            initial_stream_window_size: 7,
            initial_connection_window_size: 9,
        }),
        ..params()
    };
    let knobs = InlineKnobs { cap: 1, flush: false };
    let plan = Http2Plan::new(&fixed, needed_set(true, None, false, false), Some(knobs));
    assert_eq!(plan.initial_stream_window_size, Some(7));
    assert_eq!(plan.initial_connection_window_size, Some(9));
    assert!(!plan.auto_date_header, "a relayed response has its date already");
    assert_eq!(plan.inline, Some(knobs));
}

#[test]
fn a_connection_is_closed_by_who_ends_it() {
    assert_eq!(closing(ConnEnd::Client), Closing { graceful: false, hold_process: false });
    assert_eq!(closing(ConnEnd::Process), Closing { graceful: true, hold_process: true });
    assert_eq!(closing(ConnEnd::Stack), Closing { graceful: true, hold_process: false });
    assert_eq!(call_in_place(Some(true)), CallInPlace::InPlace);
    assert_eq!(call_in_place(Some(false)), CallInPlace::Copy);
    assert_eq!(call_in_place(None), CallInPlace::Copy);
}

#[test]
fn each_tap_hears_one_end() {
    let (mut body, told) = Body::new(vec![1, 2], false);
    assert!(told.taps.is_empty() && told.end.is_none());
    assert!(body.polled(Polled::Pending, false).taps.is_empty());
    assert!(body.polled(Polled::Data, false).taps.is_empty());
    let told = body.polled(Polled::Trailers, true);
    assert_eq!(told.taps, vec![1, 2]);
    assert_eq!(told.end, Some(BodyEnd::WithTrailers));
    assert!(body.polled(Polled::Ended, true).taps.is_empty());
    assert!(body.dropped().taps.is_empty());

    let (_, told) = Body::new(vec![3], true);
    assert_eq!(told.taps, vec![3]);
    for (polled, end_stream, end) in [
        (Polled::Failed, false, BodyEnd::Failed),
        (Polled::Ended, true, BodyEnd::WithoutTrailers),
        (Polled::Data, true, BodyEnd::WithoutTrailers),
    ] {
        let (mut body, _) = Body::new(vec![4], false);
        let told = body.polled(polled, end_stream);
        assert_eq!((told.taps, told.end), (vec![4], Some(end)));
    }
    let (body, _) = Body::new(vec![5], false);
    assert_eq!(body.dropped().taps, vec![5]);
}

#[test]
fn taps_are_refreshed_on_change() {
    let mut tap = TapHttp { taps: Vec::new() };
    assert!(!tap.refresh(None));
    assert!(tap.refresh(Some(vec!["t"])));
    assert!(tap.refresh(None));
    assert!(!tap.refresh(Some(Vec::new())));
}

#[test]
fn workers_are_counted_and_named() {
    assert_eq!(num_workers(None), 1);
    assert_eq!(num_workers(Some("0")), 1);
    assert_eq!(num_workers(Some("three")), 1);
    assert_eq!(num_workers(Some("3")), 3);
    let name = server_name(None);
    assert_eq!(name, "DPUMesh0");
    assert_eq!(server_name(Some("Mine".to_string())), "Mine");
    assert_eq!(worker_name(&"Mine".to_string(), 1, 0), "Mine");
    assert_eq!(worker_name(&"Mine".to_string(), 12, 11), "DPUMesh11");
    assert_eq!(shard_name(2), "dmesh-shard-2");
    assert_eq!(shard_core(2), 13);
    assert_eq!(shard_core(99), 0);
    assert_eq!(EX_USAGE, 64);
}

#[test]
fn a_needed_name_is_listed_once() {
    let set = needed_set(true, Some("content-type,x-a,X-A,te,+wide,x-a"), false, false).unwrap();
    let more = [
        "x-a",
        "te",
        "content-length",
        "grpc-timeout",
        "user-agent",
        "l5d-dst-canonical",
        "l5d-orig-proto",
    ];
    assert_eq!(set.names, [&DEFAULT[..], &more[..]].concat());
}

#[test]
fn no_more_than_so_many_names_are_needed() {
    let list: Vec<String> = (0..100).map(|i| format!("x-{i}")).collect();
    let set = needed_set(true, Some(&list.join(",")), false, false).unwrap();
    assert_eq!(set.names.len(), MAX_NEEDED);
    assert_eq!(set.names[..DEFAULT.len()], DEFAULT);
    assert_eq!(set.names[DEFAULT.len()..], list[..MAX_NEEDED - DEFAULT.len()]);
}
