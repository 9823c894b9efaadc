//! Why a stream or a connection failed.
use vstd::prelude::*;

use crate::text::push_decimal;

verus! {

/// The error codes that have a name.
pub const NO_ERROR: u32 = 0;

pub const PROTOCOL_ERROR: u32 = 1;

pub const INTERNAL_ERROR: u32 = 2;

pub const FLOW_CONTROL_ERROR: u32 = 3;

pub const SETTINGS_TIMEOUT: u32 = 4;

pub const STREAM_CLOSED: u32 = 5;

pub const FRAME_SIZE_ERROR: u32 = 6;

pub const REFUSED_STREAM: u32 = 7;

pub const CANCEL: u32 = 8;

pub const COMPRESSION_ERROR: u32 = 9;

pub const CONNECT_ERROR: u32 = 10;

pub const ENHANCE_YOUR_CALM: u32 = 11;

pub const INADEQUATE_SECURITY: u32 = 12;

pub const HTTP_1_1_REQUIRED: u32 = 13;

/// A stream or connection error code of HTTP/2.
#[derive(Clone, Copy, PartialEq, Eq, Hash, Debug, Structural)]
pub struct Reason(pub u32);

impl Reason {
    pub fn from_u32(v: u32) -> (r: Reason)
        ensures
            r == Reason(v),
    {
        Reason(v)
    }

    pub open spec fn spec_description(self) -> Seq<char> {
        match self.0 {
            0 => "not a result of an error"@,
            1 => "unspecific protocol error detected"@,
            2 => "unexpected internal error encountered"@,
            3 => "flow-control protocol violated"@,
            4 => "settings ACK not received in timely manner"@,
            5 => "received frame when stream half-closed"@,
            6 => "frame with invalid size"@,
            7 => "refused stream before processing any application logic"@,
            8 => "stream no longer needed"@,
            9 => "unable to maintain the header compression context"@,
            10 => "connection established in response to a CONNECT request was reset"@,
            11 => "detected excessive load generating behavior"@,
            12 => "security properties do not meet minimum requirements"@,
            13 => "endpoint requires HTTP/1.1"@,
            _ => "unknown reason"@,
        }
    }

    /// What the code means.
    pub fn description(&self) -> (r: &'static str)
        ensures
            r@ == self.spec_description(),
    {
        match self.0 {
            0 => "not a result of an error",
            1 => "unspecific protocol error detected",
            2 => "unexpected internal error encountered",
            3 => "flow-control protocol violated",
            4 => "settings ACK not received in timely manner",
            5 => "received frame when stream half-closed",
            6 => "frame with invalid size",
            7 => "refused stream before processing any application logic",
            8 => "stream no longer needed",
            9 => "unable to maintain the header compression context",
            10 => "connection established in response to a CONNECT request was reset",
            11 => "detected excessive load generating behavior",
            12 => "security properties do not meet minimum requirements",
            13 => "endpoint requires HTTP/1.1",
            _ => "unknown reason",
        }
    }

    pub open spec fn spec_name(self) -> Seq<char> {
        match self.0 {
            0 => "NO_ERROR"@,
            1 => "PROTOCOL_ERROR"@,
            2 => "INTERNAL_ERROR"@,
            3 => "FLOW_CONTROL_ERROR"@,
            4 => "SETTINGS_TIMEOUT"@,
            5 => "STREAM_CLOSED"@,
            6 => "FRAME_SIZE_ERROR"@,
            7 => "REFUSED_STREAM"@,
            8 => "CANCEL"@,
            9 => "COMPRESSION_ERROR"@,
            10 => "CONNECT_ERROR"@,
            11 => "ENHANCE_YOUR_CALM"@,
            12 => "INADEQUATE_SECURITY"@,
            13 => "HTTP_1_1_REQUIRED"@,
            _ => "Reason("@ + crate::text::decimal(self.0 as nat) + ")"@,
        }
    }

    /// The code's name, or its number where it has none.
    pub fn name(&self) -> (r: String)
        ensures
            r@ == self.spec_name(),
    {
        let name: &str = match self.0 {
            0 => "NO_ERROR",
            1 => "PROTOCOL_ERROR",
            2 => "INTERNAL_ERROR",
            3 => "FLOW_CONTROL_ERROR",
            4 => "SETTINGS_TIMEOUT",
            5 => "STREAM_CLOSED",
            6 => "FRAME_SIZE_ERROR",
            7 => "REFUSED_STREAM",
            8 => "CANCEL",
            9 => "COMPRESSION_ERROR",
            10 => "CONNECT_ERROR",
            11 => "ENHANCE_YOUR_CALM",
            12 => "INADEQUATE_SECURITY",
            13 => "HTTP_1_1_REQUIRED",
            _ => {
                let mut out = String::new();
                out.append("Reason(");
                push_decimal(&mut out, self.0 as u64);
                out.append(")");
                assert(out@ =~= self.spec_name());
                return out;
            },
        };
        name.to_owned()
    }
}

#[derive(Clone, Copy, Debug, PartialEq, Eq, Structural)]
pub enum Kind {
    /// The stream was reset, by either end.
    Reset(Reason),
    /// The connection is going away, by either end.
    GoAway(Reason),
    /// A keepalive ping was not answered in time.
    KeepAliveTimedOut,
    /// The session failed.
    Session(Reason),
    /// The task that drives the connection is gone.
    ConnectionClosed,
}

/// Why a stream or a connection ended.
#[derive(Clone, Copy, Debug, PartialEq, Eq, Structural)]
pub struct Error {
    pub kind: Kind,
}

impl Error {
    pub fn reset(reason: Reason) -> (r: Self)
        ensures
            r == (Error { kind: Kind::Reset(reason) }),
    {
        Error { kind: Kind::Reset(reason) }
    }

    pub fn go_away(reason: Reason) -> (r: Self)
        ensures
            r == (Error { kind: Kind::GoAway(reason) }),
    {
        Error { kind: Kind::GoAway(reason) }
    }

    pub fn keepalive_timeout() -> (r: Self)
        ensures
            r == (Error { kind: Kind::KeepAliveTimedOut }),
    {
        Error { kind: Kind::KeepAliveTimedOut }
    }

    pub fn session(reason: Reason) -> (r: Self)
        ensures
            r == (Error { kind: Kind::Session(reason) }),
    {
        Error { kind: Kind::Session(reason) }
    }

    pub fn connection_closed() -> (r: Self)
        ensures
            r == (Error { kind: Kind::ConnectionClosed }),
    {
        Error { kind: Kind::ConnectionClosed }
    }

    /// The error code, where there is one.
    pub fn reason(&self) -> (r: Option<Reason>)
        ensures
            r == match self.kind {
                Kind::Reset(reason) => Some(reason),
                Kind::GoAway(reason) => Some(reason),
                Kind::Session(reason) => Some(reason),
                Kind::KeepAliveTimedOut => None,
                Kind::ConnectionClosed => None,
            },
    {
        match self.kind {
            Kind::Reset(reason) => Some(reason),
            Kind::GoAway(reason) => Some(reason),
            Kind::Session(reason) => Some(reason),
            Kind::KeepAliveTimedOut => None,
            Kind::ConnectionClosed => None,
        }
    }

    pub fn is_reset(&self) -> (r: bool)
        ensures
            r == (self.kind is Reset),
    {
        matches!(self.kind, Kind::Reset(_))
    }

    pub fn is_go_away(&self) -> (r: bool)
        ensures
            r == (self.kind is GoAway),
    {
        matches!(self.kind, Kind::GoAway(_))
    }

    /// Whether the peer may have had a part in it.
    pub fn is_remote(&self) -> (r: bool)
        ensures
            r == (self.kind is Reset || self.kind is GoAway),
    {
        matches!(self.kind, Kind::Reset(_) | Kind::GoAway(_))
    }

    pub open spec fn spec_message(self) -> Seq<char> {
        match self.kind {
            Kind::Reset(reason) => "stream reset: "@ + reason.spec_description(),
            Kind::GoAway(reason) => "connection gone away: "@ + reason.spec_description(),
            Kind::KeepAliveTimedOut => "keep-alive timed out"@,
            Kind::Session(reason) => "http2 session error: "@ + reason.spec_description(),
            Kind::ConnectionClosed => "http2 connection closed"@,
        }
    }

    /// The error as text.
    pub fn message(&self) -> (r: String)
        ensures
            r@ == self.spec_message(),
    {
        let mut out = String::new();
        match self.kind {
            Kind::Reset(reason) => {
                out.append("stream reset: ");
                out.append(reason.description());
            },
            Kind::GoAway(reason) => {
                out.append("connection gone away: ");
                out.append(reason.description());
            },
            Kind::KeepAliveTimedOut => {
                out.append("keep-alive timed out");
            },
            Kind::Session(reason) => {
                out.append("http2 session error: ");
                out.append(reason.description());
            },
            Kind::ConnectionClosed => {
                out.append("http2 connection closed");
            },
        }
        assert(out@ =~= self.spec_message());
        out
    }
}

/// A code alone is a stream reset.
impl From<Reason> for Error {
    fn from(reason: Reason) -> (r: Self) {
        Error::reset(reason)
    }
}

impl vstd::std_specs::convert::FromSpecImpl<Reason> for Error {
    open spec fn obeys_from_spec() -> bool {
        true
    }

    open spec fn from_spec(reason: Reason) -> Error {
        Error { kind: Kind::Reset(reason) }
    }
}

/// An error keeps what it was made of, and gives its code back where it has one.
pub proof fn an_error_keeps_its_reason(reason: Reason)
    ensures
        forall|e: Error, r: Option<Reason>|
            #![trigger
                call_ensures(Error::reset, (reason,), e),
                call_ensures(Error::reason, (&e,), r),
            ]
            call_ensures(Error::reset, (reason,), e) && call_ensures(Error::reason, (&e,), r) ==> r
                == Some(reason) && e.kind == Kind::Reset(reason),
        forall|e: Error, r: Option<Reason>|
            #![trigger
                call_ensures(Error::go_away, (reason,), e),
                call_ensures(Error::reason, (&e,), r),
            ]
            call_ensures(Error::go_away, (reason,), e) && call_ensures(Error::reason, (&e,), r) ==> r
                == Some(reason) && e.kind == Kind::GoAway(reason),
        forall|e: Error, r: Option<Reason>|
            #![trigger
                call_ensures(Error::session, (reason,), e),
                call_ensures(Error::reason, (&e,), r),
            ]
            call_ensures(Error::session, (reason,), e) && call_ensures(Error::reason, (&e,), r) ==> r
                == Some(reason) && e.kind == Kind::Session(reason),
        forall|e: Error, r: Option<Reason>|
            #![trigger
                call_ensures(Error::keepalive_timeout, (), e),
                call_ensures(Error::reason, (&e,), r),
            ]
            call_ensures(Error::keepalive_timeout, (), e) && call_ensures(Error::reason, (&e,), r)
                ==> r is None && e.kind == Kind::KeepAliveTimedOut,
        forall|e: Error, r: Option<Reason>|
            #![trigger
                call_ensures(Error::connection_closed, (), e),
                call_ensures(Error::reason, (&e,), r),
            ]
            call_ensures(Error::connection_closed, (), e) && call_ensures(Error::reason, (&e,), r)
                ==> r is None && e.kind == Kind::ConnectionClosed,
{
}

/// A reset and a connection that goes away are told from each other and from
/// every other error, and only these two may come from the peer.
pub proof fn errors_are_told_apart(e: Error)
    ensures
        forall|r: bool| #[trigger]
            call_ensures(Error::is_reset, (&e,), r) ==> r == (e.kind is Reset),
        forall|r: bool| #[trigger]
            call_ensures(Error::is_go_away, (&e,), r) ==> r == (e.kind is GoAway),
        forall|r: bool, reset: bool, gone: bool|
            #![trigger
                call_ensures(Error::is_remote, (&e,), r),
                call_ensures(Error::is_reset, (&e,), reset),
                call_ensures(Error::is_go_away, (&e,), gone),
            ]
            call_ensures(Error::is_remote, (&e,), r) && call_ensures(Error::is_reset, (&e,), reset)
                && call_ensures(Error::is_go_away, (&e,), gone) ==> r == (reset || gone) && !(reset
                && gone),
{
}

/// A code that has a name is told by it, and any other by its number.
pub proof fn a_code_is_told_by_its_name(reason: Reason, r: String)
    requires
        call_ensures(Reason::name, (&reason,), r),
    ensures
        reason.0 == 0 ==> r@ == "NO_ERROR"@,
        reason.0 == 1 ==> r@ == "PROTOCOL_ERROR"@,
        reason.0 == 2 ==> r@ == "INTERNAL_ERROR"@,
        reason.0 == 3 ==> r@ == "FLOW_CONTROL_ERROR"@,
        reason.0 == 4 ==> r@ == "SETTINGS_TIMEOUT"@,
        reason.0 == 5 ==> r@ == "STREAM_CLOSED"@,
        reason.0 == 6 ==> r@ == "FRAME_SIZE_ERROR"@,
        reason.0 == 7 ==> r@ == "REFUSED_STREAM"@,
        reason.0 == 8 ==> r@ == "CANCEL"@,
        reason.0 == 9 ==> r@ == "COMPRESSION_ERROR"@,
        reason.0 == 10 ==> r@ == "CONNECT_ERROR"@,
        reason.0 == 11 ==> r@ == "ENHANCE_YOUR_CALM"@,
        reason.0 == 12 ==> r@ == "INADEQUATE_SECURITY"@,
        reason.0 == 13 ==> r@ == "HTTP_1_1_REQUIRED"@,
        reason.0 > 13 ==> r@ == "Reason("@ + crate::text::decimal(reason.0 as nat) + ")"@,
{
}

/// A code that has a meaning is told by it, and no other is.
pub proof fn a_code_is_told_by_its_meaning(reason: Reason, r: &'static str)
    requires
        call_ensures(Reason::description, (&reason,), r),
    ensures
        reason.0 == 0 ==> r@ == "not a result of an error"@,
        reason.0 == 1 ==> r@ == "unspecific protocol error detected"@,
        reason.0 == 2 ==> r@ == "unexpected internal error encountered"@,
        reason.0 == 3 ==> r@ == "flow-control protocol violated"@,
        reason.0 == 4 ==> r@ == "settings ACK not received in timely manner"@,
        reason.0 == 5 ==> r@ == "received frame when stream half-closed"@,
        reason.0 == 6 ==> r@ == "frame with invalid size"@,
        reason.0 == 7 ==> r@ == "refused stream before processing any application logic"@,
        reason.0 == 8 ==> r@ == "stream no longer needed"@,
        reason.0 == 9 ==> r@ == "unable to maintain the header compression context"@,
        reason.0 == 10 ==> r@
            == "connection established in response to a CONNECT request was reset"@,
        reason.0 == 11 ==> r@ == "detected excessive load generating behavior"@,
        reason.0 == 12 ==> r@ == "security properties do not meet minimum requirements"@,
        reason.0 == 13 ==> r@ == "endpoint requires HTTP/1.1"@,
        reason.0 > 13 ==> r@ == "unknown reason"@,
{
}

/// An error's text says what ended, and what the code means where there is one.
pub proof fn a_message_tells_the_meaning(reason: Reason, meaning: &'static str)
    requires
        call_ensures(Reason::description, (&reason,), meaning),
    ensures
        forall|e: Error, r: String| #[trigger]
            call_ensures(Error::message, (&e,), r) ==> {
                &&& e.kind == Kind::Reset(reason) ==> r@ == "stream reset: "@ + meaning@
                &&& e.kind == Kind::GoAway(reason) ==> r@ == "connection gone away: "@ + meaning@
                &&& e.kind == Kind::Session(reason) ==> r@ == "http2 session error: "@ + meaning@
                &&& e.kind == Kind::KeepAliveTimedOut ==> r@ == "keep-alive timed out"@
                &&& e.kind == Kind::ConnectionClosed ==> r@ == "http2 connection closed"@
            },
{
}

/// A code alone is a reset of the stream with that code.
pub proof fn a_code_alone_is_a_reset(v: u32, reason: Reason)
    requires
        call_ensures(Reason::from_u32, (v,), reason),
    ensures
        reason.0 == v,
        forall|e: Error| #[trigger]
            call_ensures(<Error as From<Reason>>::from, (reason,), e) ==> e.kind == Kind::Reset(
                Reason(v),
            ),
{
}

} // verus!
