//! What a session announces to its peer.
use vstd::prelude::*;

verus! {

pub const SETTINGS_ENABLE_PUSH: i32 = 2;

pub const SETTINGS_MAX_CONCURRENT_STREAMS: i32 = 3;

pub const SETTINGS_INITIAL_WINDOW_SIZE: i32 = 4;

pub const SETTINGS_MAX_FRAME_SIZE: i32 = 5;

pub const SETTINGS_MAX_HEADER_LIST_SIZE: i32 = 6;

/// The windows of a session without fixed ones.
pub const DEFAULT_STREAM_WINDOW: i32 = 1048576;

pub const DEFAULT_CONNECTION_WINDOW: i32 = 4194304;

/// How many streams a peer may reset before they are accepted, by default.
pub const DEFAULT_RESET_BUDGET: usize = 200;

/// How the flow-control windows are chosen.
#[derive(Clone, Copy, Debug, PartialEq, Eq, Structural)]
pub enum FlowControl {
    Adaptive,
    Fixed { initial_stream_window_size: u32, initial_connection_window_size: u32 },
}

/// When pings are sent, in nanoseconds.
#[derive(Clone, Copy, Debug, PartialEq, Eq, Structural)]
pub struct KeepAliveParams {
    pub interval: u64,
    pub timeout: u64,
}

/// How a server's connections are set up.
#[derive(Clone, Copy, Debug, PartialEq, Eq, Structural)]
pub struct ServerParams {
    pub flow_control: Option<FlowControl>,
    pub keep_alive: Option<KeepAliveParams>,
    pub max_concurrent_streams: Option<u32>,
    pub max_frame_size: Option<u32>,
    pub max_header_list_size: Option<u32>,
    pub max_pending_accept_reset_streams: Option<usize>,
    pub max_send_buf_size: Option<usize>,
}

/// How a client's connections are set up.
#[derive(Clone, Copy, Debug, PartialEq, Eq, Structural)]
pub struct ClientParams {
    pub flow_control: Option<FlowControl>,
}

/// One announced setting.
#[derive(Clone, Copy, Debug, PartialEq, Eq, Structural)]
pub struct SettingsEntry {
    pub settings_id: i32,
    pub value: u32,
}

/// One setting.
pub fn se(id: i32, value: u32) -> (r: SettingsEntry)
    ensures
        r == (SettingsEntry { settings_id: id, value }),
{
    SettingsEntry { settings_id: id, value }
}

pub open spec fn spec_window_sizes(flow_control: Option<FlowControl>) -> (i32, i32) {
    match flow_control {
        Some(
            FlowControl::Fixed { initial_stream_window_size, initial_connection_window_size },
        ) => (initial_stream_window_size as i32, initial_connection_window_size as i32),
        _ => (DEFAULT_STREAM_WINDOW, DEFAULT_CONNECTION_WINDOW),
    }
}

/// The windows of a stream and of the connection. The session cannot adapt
/// them, so adaptive windows are fixed ones.
pub fn window_sizes(flow_control: &Option<FlowControl>) -> (r: (i32, i32))
    ensures
        r == spec_window_sizes(*flow_control),
{
    match flow_control {
        Some(
            FlowControl::Fixed { initial_stream_window_size, initial_connection_window_size },
        ) => (
            #[verifier::truncate]
            (*initial_stream_window_size as i32),
            #[verifier::truncate]
            (*initial_connection_window_size as i32),
        ),
        Some(FlowControl::Adaptive) => (DEFAULT_STREAM_WINDOW, DEFAULT_CONNECTION_WINDOW),
        None => (DEFAULT_STREAM_WINDOW, DEFAULT_CONNECTION_WINDOW),
    }
}

/// A setting that is announced only where it is configured.
pub open spec fn configured(id: i32, value: Option<u32>) -> Seq<SettingsEntry> {
    match value {
        Some(value) => seq![SettingsEntry { settings_id: id, value }],
        None => Seq::empty(),
    }
}

/// No push, and the window of a stream.
pub open spec fn base_settings(flow_control: Option<FlowControl>) -> Seq<SettingsEntry> {
    seq![
        SettingsEntry { settings_id: SETTINGS_ENABLE_PUSH, value: 0 },
        SettingsEntry {
            settings_id: SETTINGS_INITIAL_WINDOW_SIZE,
            value: spec_window_sizes(flow_control).0 as u32,
        },
    ]
}

impl ServerParams {
    pub open spec fn spec_settings(self) -> Seq<SettingsEntry> {
        base_settings(self.flow_control) + configured(
            SETTINGS_MAX_CONCURRENT_STREAMS,
            self.max_concurrent_streams,
        ) + configured(SETTINGS_MAX_FRAME_SIZE, self.max_frame_size) + configured(
            SETTINGS_MAX_HEADER_LIST_SIZE,
            self.max_header_list_size,
        )
    }

    /// What a server announces, and the window of the connection. A limit is
    /// announced only where one is configured.
    pub fn settings(&self) -> (r: (Vec<SettingsEntry>, i32))
        ensures
            r.0@ == self.spec_settings(),
            r.1 == spec_window_sizes(self.flow_control).1,
    {
        let (stream_window, connection_window): (i32, i32) = window_sizes(&self.flow_control);
        let mut iv: Vec<SettingsEntry> = Vec::new();
        iv.push(se(SETTINGS_ENABLE_PUSH, 0));
        iv.push(
            se(
                SETTINGS_INITIAL_WINDOW_SIZE,
                #[verifier::truncate]
                (stream_window as u32),
            ),
        );
        if let Some(v) = self.max_concurrent_streams {
            iv.push(se(SETTINGS_MAX_CONCURRENT_STREAMS, v));
        }
        if let Some(v) = self.max_frame_size {
            iv.push(se(SETTINGS_MAX_FRAME_SIZE, v));
        }
        if let Some(v) = self.max_header_list_size {
            iv.push(se(SETTINGS_MAX_HEADER_LIST_SIZE, v));
        }
        assert(iv@ =~= self.spec_settings());
        (iv, connection_window)
    }

    /// How many resets the connection tolerates.
    pub fn reset_budget(&self) -> (r: i32)
        ensures
            r == (match self.max_pending_accept_reset_streams {
                Some(n) => n,
                None => DEFAULT_RESET_BUDGET,
            }) as i32,
    {
        let n: usize = match self.max_pending_accept_reset_streams {
            Some(n) => n,
            None => DEFAULT_RESET_BUDGET,
        };
        #[verifier::truncate]
        (n as i32)
    }
}

impl ClientParams {
    /// What a client announces, and the window of the connection.
    pub fn settings(&self) -> (r: (Vec<SettingsEntry>, i32))
        ensures
            r.0@ == base_settings(self.flow_control),
            r.1 == spec_window_sizes(self.flow_control).1,
    {
        let (stream_window, connection_window): (i32, i32) = window_sizes(&self.flow_control);
        let mut iv: Vec<SettingsEntry> = Vec::new();
        iv.push(se(SETTINGS_ENABLE_PUSH, 0));
        iv.push(
            se(
                SETTINGS_INITIAL_WINDOW_SIZE,
                #[verifier::truncate]
                (stream_window as u32),
            ),
        );
        assert(iv@ =~= base_settings(self.flow_control));
        (iv, connection_window)
    }
}

/// Fixed windows are announced as they are, and without them, adaptive or not, a
/// stream has one mebibyte and the connection four.
pub proof fn windows_are_fixed_or_default(flow_control: Option<FlowControl>, r: (i32, i32))
    requires
        call_ensures(window_sizes, (&flow_control,), r),
    ensures
        flow_control is None || flow_control == Some(FlowControl::Adaptive) ==> r.0 == 1048576 && r.1
            == 4194304,
        flow_control matches Some(
            FlowControl::Fixed { initial_stream_window_size, initial_connection_window_size },
        ) ==> {
            &&& initial_stream_window_size <= i32::MAX ==> r.0 == initial_stream_window_size
            &&& initial_connection_window_size <= i32::MAX ==> r.1 == initial_connection_window_size
        },
{
}

/// A server announces that nothing is pushed and the window of a stream, and
/// each limit exactly where it is configured: on streams under the number three,
/// on frames under five, on header lists under six. The window of the connection
/// goes along.
pub proof fn a_server_announces_what_is_configured(
    params: ServerParams,
    r: (Vec<SettingsEntry>, i32),
    windows: (i32, i32),
)
    requires
        call_ensures(ServerParams::settings, (&params,), r),
        call_ensures(window_sizes, (&params.flow_control,), windows),
    ensures
        r.1 == windows.1,
        r.0@.len() >= 2,
        r.0@[0].settings_id == 2 && r.0@[0].value == 0,
        r.0@[1].settings_id == 4 && r.0@[1].value == windows.0 as u32,
        r.0@.len() == 2 + (if params.max_concurrent_streams is Some {
            1int
        } else {
            0
        }) + (if params.max_frame_size is Some {
            1int
        } else {
            0
        }) + (if params.max_header_list_size is Some {
            1int
        } else {
            0
        }),
        params.max_concurrent_streams is Some ==> r.0@[2].settings_id == 3 && r.0@[2].value
            == params.max_concurrent_streams->0,
        params.max_frame_size is Some ==> ({
            let i: int = if params.max_concurrent_streams is Some {
                3
            } else {
                2
            };
            r.0@[i].settings_id == 5 && r.0@[i].value == params.max_frame_size->0
        }),
        params.max_header_list_size is Some ==> r.0@.last().settings_id == 6 && r.0@.last().value
            == params.max_header_list_size->0,
{
}

/// A client announces that nothing is pushed and the window of a stream, and
/// nothing else. The window of the connection goes along.
pub proof fn a_client_announces_its_window(
    params: ClientParams,
    r: (Vec<SettingsEntry>, i32),
    windows: (i32, i32),
)
    requires
        call_ensures(ClientParams::settings, (&params,), r),
        call_ensures(window_sizes, (&params.flow_control,), windows),
    ensures
        r.1 == windows.1,
        r.0@.len() == 2,
        r.0@[0].settings_id == 2 && r.0@[0].value == 0,
        r.0@[1].settings_id == 4 && r.0@[1].value == windows.0 as u32,
{
}

/// As many resets are tolerated as are configured, and two hundred otherwise.
pub proof fn resets_are_tolerated_up_to_a_number(params: ServerParams, r: i32)
    requires
        call_ensures(ServerParams::reset_budget, (&params,), r),
    ensures
        params.max_pending_accept_reset_streams is None ==> r == 200,
        params.max_pending_accept_reset_streams is Some && params.max_pending_accept_reset_streams->0
            <= i32::MAX ==> r == params.max_pending_accept_reset_streams->0,
{
}

} // verus!
