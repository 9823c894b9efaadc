use dmesh::h2::driver::{Drive, DriveAction, DriveEvent, Standing};
use dmesh::h2::error::{Error, Reason, CANCEL, ENHANCE_YOUR_CALM, INTERNAL_ERROR, NO_ERROR, PROTOCOL_ERROR};
use dmesh::h2::keepalive::{KeepAlive, Tick};
use dmesh::h2::pump::{
    flush_out, read_feed, take_frame, wants_frames, FlushStep, ReadPoll, ReadStep, WritePoll,
};
use dmesh::h2::settings::{
    window_sizes, ClientParams, FlowControl, ServerParams, SETTINGS_INITIAL_WINDOW_SIZE,
    SETTINGS_MAX_CONCURRENT_STREAMS,
};
use dmesh::h2::stats::Stats;
use dmesh::io::{ErrorKind, IoError};
use dmesh::split::{chars_of, split, split_bytes, split_once, string_of, trim, trim_bytes};
use dmesh::text::{push_decimal, push_signed};

#[test]
fn windows_are_fixed_or_default() {
    assert_eq!(window_sizes(&None), (1 << 20, 4 << 20));
    assert_eq!(window_sizes(&Some(FlowControl::Adaptive)), (1 << 20, 4 << 20));
    let fixed = Some(FlowControl::Fixed {
        initial_stream_window_size: 65535,
        initial_connection_window_size: 131072,
    });
    assert_eq!(window_sizes(&fixed), (65535, 131072));
    let (entries, connection) = ClientParams { flow_control: fixed }.settings();
    assert_eq!(connection, 131072);
    assert!(entries
        .iter()
        .any(|e| e.settings_id == SETTINGS_INITIAL_WINDOW_SIZE && e.value == 65535));
    let server = ServerParams {
        flow_control: fixed,
        keep_alive: None,
        max_concurrent_streams: Some(100),
        max_frame_size: None,
        max_header_list_size: None,
        max_pending_accept_reset_streams: Some(20),
        max_send_buf_size: None,
    };
    let (entries, _) = server.settings();
    assert!(entries
        .iter()
        .any(|e| e.settings_id == SETTINGS_MAX_CONCURRENT_STREAMS && e.value == 100));
    assert_eq!(server.reset_budget(), 20);
}

#[test]
fn an_unanswered_ping_ends_the_connection() {
    assert!(KeepAlive::new(0, 5, true, 1).is_none());
    let mut alive = KeepAlive::new(10, 5, false, 1).unwrap();
    assert_eq!(alive.poll(0, true, true), Tick::Idle);
    let ping = alive.poll(1, true, true);
    assert!(matches!(ping, Tick::SendPing(_)));
    assert_eq!(alive.poll(1, true, true), Tick::TimedOut);
    alive.on_ping_ack();
    assert!(matches!(alive.poll(1, true, true), Tick::SendPing(_)));
    alive.on_activity();
    assert_eq!(alive.poll(1, false, false), Tick::Idle);
}

#[test]
fn reasons_are_described() {
    assert_eq!(Reason::from_u32(CANCEL).name(), "CANCEL");
    assert_eq!(Reason::from_u32(99).name(), "Reason(99)");
    let error = Error::from(Reason(ENHANCE_YOUR_CALM));
    assert_eq!(error.reason(), Some(Reason(ENHANCE_YOUR_CALM)));
    assert!(Error::reset(Reason(CANCEL)).is_reset());
    assert!(Error::go_away(Reason(NO_ERROR)).is_go_away());
    assert!(Error::go_away(Reason(NO_ERROR)).is_remote());
    assert!(!Error::session(Reason(NO_ERROR)).is_remote());
    assert_eq!(Error::connection_closed().reason(), None);
    assert_eq!(Error::keepalive_timeout().reason(), None);
    assert!(!Reason(PROTOCOL_ERROR).description().is_empty());
}

#[test]
fn output_is_bounded_and_kept_until_it_is_written() {
    assert!(wants_frames(0));
    assert!(!wants_frames(65536));
    let mut out = Vec::new();
    assert_eq!(take_frame(&mut out, 3, b"abc"), Ok(true));
    assert_eq!(take_frame(&mut out, 0, b""), Ok(false));
    assert!(take_frame(&mut out, -1, b"").is_err());
    assert!(matches!(flush_out(&mut out, WritePoll::Wrote(2)), FlushStep::More));
    assert_eq!(out, b"c");
    assert!(matches!(flush_out(&mut out, WritePoll::Pending), FlushStep::Blocked));
    assert!(matches!(flush_out(&mut out, WritePoll::Wrote(1)), FlushStep::Drained));
    out.push(1);
    let gone = IoError::new(ErrorKind::BrokenPipe, "gone");
    assert!(matches!(flush_out(&mut out, WritePoll::Failed(gone)), FlushStep::Failed(_)));
}

#[test]
fn input_is_fed_until_it_ends() {
    assert_eq!(read_feed(ReadPoll::Pending, 0), Ok(ReadStep::Pending));
    assert_eq!(read_feed(ReadPoll::Filled(0), 0), Ok(ReadStep::Eof));
    assert_eq!(read_feed(ReadPoll::Filled(5), 5), Ok(ReadStep::Fed(5)));
    assert_eq!(
        read_feed(ReadPoll::Filled(5), -1),
        Err(Error::session(Reason(PROTOCOL_ERROR)))
    );
    assert_eq!(read_feed(ReadPoll::Failed, 0), Err(Error::session(Reason(INTERNAL_ERROR))));
}

#[test]
fn frames_are_counted_by_type() {
    let mut stats = Stats::new();
    stats.frame(0);
    stats.frame(1);
    stats.frame(0);
    assert_eq!(stats.seen(), vec![(0, 2), (1, 1)]);
}

/// Runs a server that has nothing to do until it parks or ends.
fn settle(drive: &mut Drive, mut action: DriveAction, standing: Standing, shutdown: bool) -> Vec<DriveAction> {
    let mut seen = Vec::new();
    loop {
        seen.push(action);
        let event = match action {
            DriveAction::TakeResponses => DriveEvent::Responses(0),
            DriveAction::TakeRequests => DriveEvent::Requests(0, false),
            DriveAction::HandleActions => DriveEvent::Handled(0),
            DriveAction::PumpBodies => DriveEvent::Bodies(false),
            DriveAction::ForwardConsume => DriveEvent::Consumed,
            DriveAction::PollKeepAlive => DriveEvent::KeepAlive(Tick::Idle),
            DriveAction::SubmitPing(_) => DriveEvent::PingSubmitted,
            DriveAction::PollShutdown => DriveEvent::Shutdown(shutdown),
            DriveAction::GoAway => DriveEvent::GoneAway,
            DriveAction::FillOut => DriveEvent::Filled(Ok(0)),
            DriveAction::Flush => DriveEvent::Flushed { before: 0, after: 0, failed: false },
            DriveAction::AskRead => DriveEvent::ReadAsked { session_wants: true, unsent: 0 },
            DriveAction::Read => DriveEvent::Read(Ok(ReadStep::Pending)),
            DriveAction::NoteActivity => DriveEvent::Noted,
            DriveAction::Assess => DriveEvent::Assessed(standing),
            DriveAction::Park | DriveAction::Finish | DriveAction::Fail(_) => return seen,
        };
        action = drive.step(event);
    }
}

#[test]
fn going_away_is_told_once() {
    let busy = Standing { want_read: true, want_write: false, out_empty: true, idle: false };
    let (mut drive, action) = Drive::server(false);
    let seen = settle(&mut drive, action, busy, true);
    assert_eq!(seen.iter().filter(|a| **a == DriveAction::GoAway).count(), 1);
    assert_eq!(seen.last(), Some(&DriveAction::Park));
    let again = drive.step(DriveEvent::Woken);
    let seen = settle(&mut drive, again, busy, true);
    assert!(!seen.contains(&DriveAction::GoAway));
    let done = Standing { want_read: false, want_write: false, out_empty: true, idle: true };
    let again = drive.step(DriveEvent::Woken);
    assert_eq!(settle(&mut drive, again, done, true).last(), Some(&DriveAction::Finish));
}

#[test]
fn text_is_taken_apart() {
    let text = chars_of(" a,b ,, c\u{a0}");
    let parts: Vec<String> =
        split(&text, ',').iter().map(|part| string_of(trim(part))).collect();
    assert_eq!(parts, vec!["a", "b", "", "c"]);
    let pair = chars_of("k=v=w");
    let (k, v) = split_once(&pair, '=').unwrap();
    assert_eq!((string_of(k), string_of(v)), ("k".to_string(), "v=w".to_string()));
    assert!(split_once(&pair, ':').is_none());
    let bytes = split_bytes(b"x, y\t", b',');
    assert_eq!(bytes.len(), 2);
    assert_eq!(trim_bytes(&bytes[1]), b"y");
}

#[test]
fn numbers_are_written_in_decimal() {
    let mut out = String::new();
    push_decimal(&mut out, 0);
    out.push(' ');
    push_decimal(&mut out, u64::MAX);
    out.push(' ');
    push_signed(&mut out, i64::MIN as i128);
    assert_eq!(out, "0 18446744073709551615 -9223372036854775808");
}

#[test]
fn a_connection_that_goes_away_serves_its_open_streams() {
    let open = Standing { want_read: true, want_write: false, out_empty: true, idle: true };
    let (mut drive, action) = Drive::server(false);
    let seen = settle(&mut drive, action, open, true);
    assert!(seen.contains(&DriveAction::GoAway));
    assert_eq!(seen.last(), Some(&DriveAction::Park));
    let closed = Standing { want_read: false, ..open };
    let again = drive.step(DriveEvent::Woken);
    assert_eq!(settle(&mut drive, again, closed, false).last(), Some(&DriveAction::Finish));
}
