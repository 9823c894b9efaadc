//! Pings that keep a connection alive.
use vstd::prelude::*;

verus! {

/// When a connection is pinged, and whether a ping is outstanding.
#[derive(Clone, Copy, Debug, PartialEq, Eq, Structural)]
pub struct KeepAlive {
    /// Nanoseconds between pings.
    pub interval: u64,
    /// Nanoseconds in which a ping is to be answered.
    pub timeout: u64,
    /// Ping also while no stream is open.
    pub while_idle: bool,
    /// A ping is outstanding.
    pub pending: bool,
    /// The payload of the last ping.
    pub opaque: u64,
}

/// What the keepalive asks for.
#[derive(Clone, Copy, Debug, PartialEq, Eq, Structural)]
pub enum Tick {
    /// Nothing to do.
    Idle,
    /// Submit a ping with this payload.
    SendPing(u64),
    /// The outstanding ping was not answered in time.
    TimedOut,
}

impl KeepAlive {
    /// No keepalive where the interval is zero. Payloads count up from `seed`.
    pub fn new(interval: u64, timeout: u64, while_idle: bool, seed: u64) -> (r: Option<Self>)
        ensures
            r == if interval == 0 {
                None
            } else {
                Some(KeepAlive { interval, timeout, while_idle, pending: false, opaque: seed })
            },
    {
        if interval == 0 {
            return None;
        }
        Some(KeepAlive { interval, timeout, while_idle, pending: false, opaque: seed })
    }

    /// Any frame that comes in is a sign of life.
    pub fn on_activity(&mut self)
        ensures
            *final(self) == (KeepAlive { pending: false, ..*old(self) }),
    {
        self.pending = false;
    }

    /// A ping was answered.
    pub fn on_ping_ack(&mut self)
        ensures
            *final(self) == (KeepAlive { pending: false, ..*old(self) }),
    {
        self.pending = false;
    }

    /// The interval is to be asked: no ping is outstanding, and streams are
    /// open or it does not matter.
    pub open spec fn spec_wants_tick(self, active_streams: usize) -> bool {
        !self.pending && (self.while_idle || active_streams > 0)
    }

    /// Whether the interval is to be asked. `expired` says whether the deadline
    /// of the outstanding ping has passed.
    pub fn wants_tick(&self, active_streams: usize, expired: bool) -> (r: bool)
        ensures
            r == (!(self.pending && expired) && self.spec_wants_tick(active_streams)),
    {
        !self.pending && (self.while_idle || active_streams > 0)
    }

    /// Take the deadline and the interval: `expired` says whether the deadline
    /// of the outstanding ping has passed, `ticked` whether the interval has.
    ///
    /// The deadline comes first. A ping starts a new one.
    pub fn poll(&mut self, active_streams: usize, expired: bool, ticked: bool) -> (r: Tick)
        ensures
            (*final(self), r) == if old(self).pending && expired {
                (KeepAlive { pending: false, ..*old(self) }, Tick::TimedOut)
            } else if old(self).spec_wants_tick(active_streams) && ticked {
                let payload = old(self).opaque.wrapping_add(1);
                (
                    KeepAlive { pending: true, opaque: payload, ..*old(self) },
                    Tick::SendPing(payload),
                )
            } else {
                (*old(self), Tick::Idle)
            },
    {
        if self.pending && expired {
            self.pending = false;
            return Tick::TimedOut;
        }
        if !self.pending && (self.while_idle || active_streams > 0) && ticked {
            // Vary the payload so that answers can be told apart.
            self.opaque = self.opaque.wrapping_add(1);
            self.pending = true;
            return Tick::SendPing(self.opaque);
        }
        Tick::Idle
    }
}

/// A ping is sent exactly where the interval has passed, none is outstanding,
/// and a stream is open or idle connections are pinged too; its payload is one
/// more than that of the last. An outstanding ping whose deadline has passed
/// times out, once. Otherwise nothing happens.
pub proof fn a_ping_is_sent_in_its_time(active_streams: usize, expired: bool, ticked: bool)
    ensures
        forall|alive: &mut KeepAlive, r: Tick| #[trigger]
            call_ensures(KeepAlive::poll, (alive, active_streams, expired, ticked), r) ==> {
                let late = alive.pending && expired;
                let due = !alive.pending && ticked && (alive.while_idle || active_streams >= 1);
                &&& r is TimedOut <==> late
                &&& r is SendPing <==> due
                &&& r is Idle <==> !late && !due
                &&& due ==> r == Tick::SendPing(final(alive).opaque) && final(alive).opaque == (
                if alive.opaque == u64::MAX {
                    0
                } else {
                    alive.opaque + 1
                })
                &&& !due ==> final(alive).opaque == alive.opaque
                &&& final(alive).pending == (due || (alive.pending && !expired))
                &&& final(alive).interval == alive.interval
                &&& final(alive).timeout == alive.timeout
                &&& final(alive).while_idle == alive.while_idle
            },
{
}

/// Any sign of life answers the outstanding ping: whatever has passed then,
/// nothing times out until another ping is sent.
pub proof fn a_sign_of_life_answers_the_ping(active_streams: usize, expired: bool, ticked: bool)
    ensures
        forall|seen: &mut KeepAlive, alive: &mut KeepAlive, r: Tick|
            #![trigger
                call_ensures(KeepAlive::on_activity, (seen,), ()),
                call_ensures(KeepAlive::poll, (alive, active_streams, expired, ticked), r),
            ]
            call_ensures(KeepAlive::on_activity, (seen,), ()) && *alive == *final(seen)
                && call_ensures(KeepAlive::poll, (alive, active_streams, expired, ticked), r) ==> !(r
                is TimedOut) && final(seen).opaque == seen.opaque && final(seen).interval
                == seen.interval,
        forall|seen: &mut KeepAlive, alive: &mut KeepAlive, r: Tick|
            #![trigger
                call_ensures(KeepAlive::on_ping_ack, (seen,), ()),
                call_ensures(KeepAlive::poll, (alive, active_streams, expired, ticked), r),
            ]
            call_ensures(KeepAlive::on_ping_ack, (seen,), ()) && *alive == *final(seen)
                && call_ensures(KeepAlive::poll, (alive, active_streams, expired, ticked), r) ==> !(r
                is TimedOut) && final(seen).opaque == seen.opaque && final(seen).interval
                == seen.interval,
{
}

/// The interval is asked exactly where a tick of it would send a ping.
pub proof fn the_interval_is_asked_where_it_matters(
    alive: KeepAlive,
    active_streams: usize,
    expired: bool,
    r: bool,
)
    requires
        call_ensures(KeepAlive::wants_tick, (&alive, active_streams, expired), r),
    ensures
        r <==> !alive.pending && (alive.while_idle || active_streams >= 1),
{
}

/// There is a keepalive exactly where the interval is not zero, and it begins
/// without an outstanding ping.
pub proof fn a_keepalive_has_an_interval(
    interval: u64,
    timeout: u64,
    while_idle: bool,
    seed: u64,
    r: Option<KeepAlive>,
)
    requires
        call_ensures(KeepAlive::new, (interval, timeout, while_idle, seed), r),
    ensures
        r is Some <==> interval != 0,
        r is Some ==> !r->0.pending && r->0.interval == interval && r->0.timeout == timeout
            && r->0.while_idle == while_idle && r->0.opaque == seed,
{
}

} // verus!
