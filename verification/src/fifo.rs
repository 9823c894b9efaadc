//! What every byte queue here keeps: bytes leave in the order they came, and
//! none is lost or repeated.
use vstd::prelude::*;

verus! {

/// What happened to a queue.
pub enum Moved {
    /// These bytes were queued, at the end.
    In(Seq<u8>),
    /// These bytes were taken, off the front.
    Out(Seq<u8>),
}

/// The queue holds `after` once `moved` happened to `before`.
pub open spec fn moves(before: Seq<u8>, after: Seq<u8>, moved: Moved) -> bool {
    match moved {
        Moved::In(bytes) => after == before + bytes,
        Moved::Out(bytes) => before == bytes + after,
    }
}

/// A run of a queue: what it holds after each step.
pub open spec fn is_run(queue: Seq<Seq<u8>>, steps: Seq<Moved>) -> bool {
    &&& queue.len() == steps.len() + 1
    &&& forall|k: int|
        #![trigger steps[k]]
        0 <= k < steps.len() ==> moves(queue[k], queue[k + 1], steps[k])
}

/// Everything that was queued, in order.
pub open spec fn came(steps: Seq<Moved>) -> Seq<u8>
    decreases steps.len(),
{
    if steps.len() == 0 {
        Seq::empty()
    } else {
        match steps.last() {
            Moved::In(bytes) => came(steps.drop_last()) + bytes,
            Moved::Out(_) => came(steps.drop_last()),
        }
    }
}

/// Everything that was taken, in order.
pub open spec fn left(steps: Seq<Moved>) -> Seq<u8>
    decreases steps.len(),
{
    if steps.len() == 0 {
        Seq::empty()
    } else {
        match steps.last() {
            Moved::In(_) => left(steps.drop_last()),
            Moved::Out(bytes) => left(steps.drop_last()) + bytes,
        }
    }
}

/// Over any run, what a queue held at first, followed by what was queued, is
/// what was taken followed by what it still holds: a reader sees the bytes of
/// the writer, in order, each once.
///
/// The segments of an endpoint, the bodies of both directions and the
/// datapath's send queue are such queues: every function that adds to one or
/// takes from one says that it `moves` so.
pub proof fn bytes_keep_their_order(queue: Seq<Seq<u8>>, steps: Seq<Moved>)
    requires
        is_run(queue, steps),
    ensures
        queue[0] + came(steps) == left(steps) + queue.last(),
    decreases steps.len(),
{
    if steps.len() == 0 {
        assert(queue[0] + came(steps) =~= left(steps) + queue.last());
    } else {
        let n = steps.len() as int;
        let earlier = steps.drop_last();
        let before = queue.drop_last();
        assert forall|k: int|
            #![trigger earlier[k]]
            0 <= k < earlier.len() implies moves(before[k], before[k + 1], earlier[k]) by {
            assert(earlier[k] == steps[k]);
            assert(moves(queue[k], queue[k + 1], steps[k]));
        }
        bytes_keep_their_order(before, earlier);
        assert(before.last() == queue[n - 1]);
        assert(moves(queue[n - 1], queue[n - 1 + 1], steps[n - 1]));
        match steps.last() {
            Moved::In(bytes) => {
                assert(queue[0] + came(steps) =~= (queue[0] + came(earlier)) + bytes);
                assert(left(steps) + queue.last() =~= (left(earlier) + before.last()) + bytes);
            },
            Moved::Out(bytes) => {
                assert(left(steps) + queue.last() =~= left(earlier) + (bytes + queue.last()));
            },
        }
    }
}

} // verus!
