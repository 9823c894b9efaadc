//! Counters of the driver's loop.
//!
//! Scanning every stream is the cost to watch in a driver with one task, so it
//! is made observable.
use vstd::prelude::*;

verus! {

/// How many frame types are counted.
pub const FRAME_TYPES: usize = 10;

/// The counters of one driver.
#[derive(Debug)]
pub struct Stats {
    pub polls: u64,
    pub iters: u64,
    pub reads: u64,
    pub reqs: u64,
    pub body_polls: u64,
    /// Frames that came in, by type.
    pub frames: Vec<u64>,
}

/// One more, wrapping around.
pub fn bump(counter: &mut u64)
    ensures
        *final(counter) == old(counter).wrapping_add(1),
{
    *counter = counter.wrapping_add(1);
}

impl Stats {
    pub open spec fn wf(self) -> bool {
        self.frames@.len() == FRAME_TYPES
    }

    pub fn new() -> (r: Self)
        ensures
            r.wf(),
            r.polls == 0 && r.iters == 0 && r.reads == 0 && r.reqs == 0 && r.body_polls == 0,
            forall|i: int| 0 <= i < FRAME_TYPES ==> r.frames@[i] == 0,
    {
        Stats {
            polls: 0,
            iters: 0,
            reads: 0,
            reqs: 0,
            body_polls: 0,
            frames: vec![0u64; 10],
        }
    }

    /// Count a frame; one of an unknown type is not counted.
    pub fn frame(&mut self, frame_type: u8)
        requires
            old(self).wf(),
        ensures
            final(self).wf(),
            final(self).frames@ == if frame_type < FRAME_TYPES {
                old(self).frames@.update(
                    frame_type as int,
                    old(self).frames@[frame_type as int].wrapping_add(1),
                )
            } else {
                old(self).frames@
            },
            *final(self) == (Stats { frames: final(self).frames, ..*old(self) }),
    {
        if (frame_type as usize) < FRAME_TYPES {
            let count: u64 = self.frames[frame_type as usize];
            self.frames[frame_type as usize] = count.wrapping_add(1);
        }
    }

    /// The frame types that were seen, with their counts, by ascending type.
    pub fn seen(&self) -> (r: Vec<(u8, u64)>)
        requires
            self.wf(),
        ensures
            r@ == seen_upto(self.frames@, FRAME_TYPES as nat),
    {
        let mut out: Vec<(u8, u64)> = Vec::new();
        let mut i: usize = 0;
        while i < FRAME_TYPES
            invariant
                i <= FRAME_TYPES,
                self.wf(),
                out@ == seen_upto(self.frames@, i as nat),
            decreases FRAME_TYPES - i,
        {
            if self.frames[i] > 0 {
                out.push((i as u8, self.frames[i]));
            }
            i = i + 1;
        }
        out
    }
}

/// The first `n` frame types that were seen.
pub open spec fn seen_upto(frames: Seq<u64>, n: nat) -> Seq<(u8, u64)>
    decreases n,
{
    if n == 0 {
        Seq::empty()
    } else {
        let before = seen_upto(frames, (n - 1) as nat);
        if frames[n - 1] > 0 {
            before.push(((n - 1) as u8, frames[n - 1]))
        } else {
            before
        }
    }
}

/// A frame of one of the ten known types counts for its type alone, and one of
/// another type for none; no other counter moves.
pub proof fn a_frame_counts_for_its_type(frame_type: u8)
    ensures
        forall|stats: &mut Stats| #[trigger]
            call_ensures(Stats::frame, (stats, frame_type), ()) && stats.frames@.len() == 10 ==> {
                &&& final(stats).frames@.len() == 10
                &&& forall|i: int|
                    0 <= i < 10 ==> #[trigger] final(stats).frames@[i] == (if i == frame_type {
                        if stats.frames@[i] == u64::MAX {
                            0
                        } else {
                            stats.frames@[i] + 1
                        }
                    } else {
                        stats.frames@[i] as int
                    })
                &&& final(stats).polls == stats.polls && final(stats).iters == stats.iters
                &&& final(stats).reads == stats.reads && final(stats).reqs == stats.reqs
                &&& final(stats).body_polls == stats.body_polls
            },
        forall|counter: &mut u64| #[trigger]
            call_ensures(bump, (counter,), ()) ==> *final(counter) == (if *counter == u64::MAX {
                0
            } else {
                *counter + 1
            }),
{
}

proof fn seen_is(frames: Seq<u64>, n: nat, kind: u8)
    requires
        n <= frames.len(),
        frames.len() <= 256,
    ensures
        ({
            let seen = seen_upto(frames, n);
            &&& kind < n && frames[kind as int] > 0 ==> seen.contains((kind, frames[kind as int]))
            &&& forall|i: int|
                #![trigger seen[i]]
                0 <= i < seen.len() ==> seen[i].0 < n && seen[i].1 == frames[seen[i].0 as int]
                    && seen[i].1 > 0
            &&& forall|i: int, j: int|
                #![trigger seen[i], seen[j]]
                0 <= i < j < seen.len() ==> seen[i].0 < seen[j].0
        }),
    decreases n,
{
    if n > 0 {
        seen_is(frames, (n - 1) as nat, kind);
        let before = seen_upto(frames, (n - 1) as nat);
        let seen = seen_upto(frames, n);
        if frames[n - 1] > 0 {
            assert(seen.last() == ((n - 1) as u8, frames[n - 1]));
            assert(seen[before.len() as int] == seen.last());
            if before.contains((kind, frames[kind as int])) {
                let i = choose|i: int|
                    0 <= i < before.len() && before[i] == (kind, frames[kind as int]);
                assert(seen[i] == (kind, frames[kind as int]));
            }
        }
    }
}

/// Every frame type that was seen is listed with its count, by ascending type,
/// and no other.
pub proof fn types_that_came_are_listed(stats: Stats, r: Vec<(u8, u64)>, kind: u8)
    requires
        call_ensures(Stats::seen, (&stats,), r),
        stats.frames@.len() == 10,
    ensures
        kind < 10 && stats.frames@[kind as int] > 0 ==> r@.contains(
            (kind, stats.frames@[kind as int]),
        ),
        forall|i: int|
            #![trigger r@[i]]
            0 <= i < r@.len() ==> r@[i].0 < 10 && r@[i].1 == stats.frames@[r@[i].0 as int]
                && r@[i].1 > 0,
        forall|i: int, j: int|
            #![trigger r@[i], r@[j]]
            0 <= i < j < r@.len() ==> r@[i].0 < r@[j].0,
{
    seen_is(stats.frames@, 10, kind);
}

/// Counting begins at zero.
pub proof fn counting_begins_at_zero(r: Stats)
    requires
        call_ensures(Stats::new, (), r),
    ensures
        r.polls == 0 && r.iters == 0 && r.reads == 0 && r.reqs == 0 && r.body_polls == 0,
        r.frames@.len() == 10,
        forall|i: int| 0 <= i < 10 ==> #[trigger] r.frames@[i] == 0,
{
}

} // verus!
