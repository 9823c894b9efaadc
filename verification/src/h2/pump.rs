//! Moving bytes between the session and the transport.
use vstd::prelude::*;

use crate::h2::error::{Error, Kind, Reason, INTERNAL_ERROR, PROTOCOL_ERROR};
use crate::io::{ErrorKind, IoError};

verus! {

/// How much is read at once.
pub const READ_CHUNK: usize = 16384;

/// How much is serialized before it is flushed.
pub const OUT_HIGH_WATER: usize = 65536;

/// With as much to write, nothing is read.
pub const IN_DOS_CAP: usize = 1048576;

/// What became of a write to the transport.
#[derive(Debug)]
pub enum WritePoll {
    Wrote(usize),
    Failed(IoError),
    Pending,
}

/// What a flush does next.
#[derive(Debug)]
pub enum FlushStep {
    /// Write again.
    More,
    /// Everything was written.
    Drained,
    /// The transport takes no more now.
    Blocked,
    Failed(IoError),
}

/// What became of a read from the transport.
#[derive(Clone, Copy, Debug, PartialEq, Eq, Structural)]
pub enum ReadPoll {
    /// So many bytes.
    Filled(usize),
    Failed,
    Pending,
}

/// Result of one read that was fed to the session.
#[derive(Clone, Copy, Debug, PartialEq, Eq, Structural)]
pub enum ReadStep {
    /// So many bytes were fed; more may be available.
    Fed(usize),
    /// The peer closed its side.
    Eof,
    Pending,
}

/// Whether the session is asked for more frames.
pub fn wants_frames(out_len: usize) -> (r: bool)
    ensures
        r == (out_len < OUT_HIGH_WATER),
{
    out_len < OUT_HIGH_WATER
}

/// Take the session's next frames: `returned` is what the session returned,
/// the length of `frame` or a failure. Returns whether to ask again.
pub fn take_frame(out: &mut Vec<u8>, returned: i64, frame: &[u8]) -> (r: Result<bool, Error>)
    requires
        returned >= 0 ==> frame@.len() == returned,
    ensures
        r == if returned < 0 {
            Err::<bool, Error>(Error { kind: Kind::Session(Reason(INTERNAL_ERROR)) })
        } else {
            Ok::<bool, Error>(returned > 0)
        },
        final(out)@ == if returned > 0 {
            old(out)@ + frame@
        } else {
            old(out)@
        },
{
    if returned < 0 {
        return Err(Error::session(Reason(INTERNAL_ERROR)));
    }
    if returned == 0 {
        return Ok(false);
    }
    out.extend_from_slice(frame);
    assert(out@ =~= old(out)@ + frame@);
    Ok(true)
}

/// Take what became of a write of all of `out`. What was written is dropped.
pub fn flush_out(out: &mut Vec<u8>, written: WritePoll) -> (r: FlushStep)
    requires
        old(out)@.len() > 0,
        written matches WritePoll::Wrote(n) ==> n <= old(out)@.len(),
    ensures
        match written {
            WritePoll::Wrote(n) => if n == 0 {
                &&& final(out)@ == old(out)@
                &&& r matches FlushStep::Failed(e) && e.says(
                    ErrorKind::WriteZero,
                    "h2 write returned 0"@,
                )
            } else {
                &&& final(out)@ == old(out)@.skip(n as int)
                &&& if n == old(out)@.len() {
                    r is Drained
                } else {
                    r is More
                }
            },
            WritePoll::Failed(error) => r == FlushStep::Failed(error) && final(out)@ == old(out)@,
            WritePoll::Pending => r is Blocked && final(out)@ == old(out)@,
        },
{
    match written {
        WritePoll::Wrote(n) => {
            if n == 0 {
                return FlushStep::Failed(
                    IoError::new(ErrorKind::WriteZero, "h2 write returned 0"),
                );
            }
            let rest = out.split_off(n);
            *out = rest;
            assert(out@ =~= old(out)@.skip(n as int));
            if out.len() == 0 {
                FlushStep::Drained
            } else {
                FlushStep::More
            }
        },
        WritePoll::Failed(error) => FlushStep::Failed(error),
        WritePoll::Pending => FlushStep::Blocked,
    }
}

/// Take what became of a read, and of feeding it to the session: `consumed` is
/// what the session returned.
pub fn read_feed(polled: ReadPoll, consumed: i64) -> (r: Result<ReadStep, Error>)
    ensures
        r == match polled {
            ReadPoll::Filled(n) => if n == 0 {
                Ok::<ReadStep, Error>(ReadStep::Eof)
            } else if consumed < 0 {
                Err::<ReadStep, Error>(Error { kind: Kind::Session(Reason(PROTOCOL_ERROR)) })
            } else {
                Ok::<ReadStep, Error>(ReadStep::Fed(n))
            },
            ReadPoll::Failed => Err::<ReadStep, Error>(
                Error { kind: Kind::Session(Reason(INTERNAL_ERROR)) },
            ),
            ReadPoll::Pending => Ok::<ReadStep, Error>(ReadStep::Pending),
        },
{
    match polled {
        ReadPoll::Filled(n) => {
            if n == 0 {
                return Ok(ReadStep::Eof);
            }
            if consumed < 0 {
                return Err(Error::session(Reason(PROTOCOL_ERROR)));
            }
            Ok(ReadStep::Fed(n))
        },
        ReadPoll::Failed => Err(Error::session(Reason(INTERNAL_ERROR))),
        ReadPoll::Pending => Ok(ReadStep::Pending),
    }
}

/// Frames are serialized while less than 64 KiB wait to be written.
pub proof fn frames_are_asked_up_to_a_mark(out_len: usize, r: bool)
    requires
        call_ensures(wants_frames, (out_len,), r),
    ensures
        r <==> out_len < 65536,
{
}

/// What the session serializes is written behind what waits, and the session is
/// asked again until it has nothing; a session that fails is an internal error,
/// and nothing is written for it.
pub proof fn a_frame_is_written_whole(returned: i64, frame: &[u8])
    ensures
        forall|out: &mut Vec<u8>, r: Result<bool, Error>| #[trigger]
            call_ensures(take_frame, (out, returned, frame), r) ==> {
                &&& returned > 0 ==> r == Ok::<bool, Error>(true) && final(out)@ == out@ + frame@
                &&& returned == 0 ==> r == Ok::<bool, Error>(false) && final(out)@ == out@
                &&& returned < 0 ==> r == Err::<bool, Error>(
                    Error { kind: Kind::Session(Reason(2)) },
                ) && final(out)@ == out@
            },
{
}

/// What the transport took leaves the queue, and no byte more; what it did not
/// take is written next. A transport that takes nothing at all fails.
pub proof fn what_is_written_is_dropped(n: usize)
    ensures
        forall|out: &mut Vec<u8>, r: FlushStep| #[trigger]
            call_ensures(flush_out, (out, WritePoll::Wrote(n)), r) && n <= out@.len() ==> {
                &&& out@ == out@.take(n as int) + final(out)@
                &&& n == 0 ==> (r matches FlushStep::Failed(e) && e.says(
                    ErrorKind::WriteZero,
                    "h2 write returned 0"@,
                ))
                &&& n > 0 ==> (r is Drained <==> final(out)@.len() == 0)
                &&& n > 0 ==> (r is More <==> final(out)@.len() > 0)
            },
        forall|out: &mut Vec<u8>, r: FlushStep| #[trigger]
            call_ensures(flush_out, (out, WritePoll::Pending), r) ==> r is Blocked && final(out)@
                == out@,
        forall|out: &mut Vec<u8>, error: IoError, r: FlushStep| #[trigger]
            call_ensures(flush_out, (out, WritePoll::Failed(error)), r) ==> r == FlushStep::Failed(
                error,
            ) && final(out)@ == out@,
{
    assert forall|out: &mut Vec<u8>, r: FlushStep| #[trigger]
        call_ensures(flush_out, (out, WritePoll::Wrote(n)), r) && n <= out@.len() implies out@
        == out@.take(n as int) + final(out)@ by {
        assert(out@ =~= out@.take(n as int) + out@.skip(n as int));
        if n == 0 {
            assert(out@.skip(0) =~= out@);
        }
    }
}

/// A read of nothing is the peer's end; bytes that the session refuses are a
/// protocol error, and a transport that fails is an internal one.
pub proof fn a_read_is_fed_or_fails(polled: ReadPoll, consumed: i64, r: Result<ReadStep, Error>)
    requires
        call_ensures(read_feed, (polled, consumed), r),
    ensures
        polled == ReadPoll::Pending ==> r == Ok::<ReadStep, Error>(ReadStep::Pending),
        polled == ReadPoll::Failed ==> r == Err::<ReadStep, Error>(
            Error { kind: Kind::Session(Reason(2)) },
        ),
        polled == ReadPoll::Filled(0) ==> r == Ok::<ReadStep, Error>(ReadStep::Eof),
        polled is Filled && polled->Filled_0 > 0 ==> r == (if consumed >= 0 {
            Ok::<ReadStep, Error>(ReadStep::Fed(polled->Filled_0))
        } else {
            Err::<ReadStep, Error>(Error { kind: Kind::Session(Reason(1)) })
        }),
{
}

} // verus!
