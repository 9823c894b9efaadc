//! Chunks of body data: `bytes`' shared buffer.
use vstd::prelude::*;

use bytes::Bytes;
use std::collections::VecDeque;

verus! {

/// `bytes`' shared, immutable buffer.
#[verifier::external_type_specification]
#[verifier::external_body]
pub struct ExBytes(bytes::Bytes);

/// The bytes that a buffer holds.
pub uninterp spec fn chunk_bytes(chunk: Bytes) -> Seq<u8>;

/// `Bytes::copy_from_slice`: a buffer with a copy of `data`.
#[verifier::external_body]
pub(crate) fn copy_chunk(data: &[u8]) -> (r: Bytes)
    ensures
        chunk_bytes(r) == data@,
{
    Bytes::copy_from_slice(data)
}

/// `Bytes::len`: the number of bytes that the buffer holds.
#[verifier::external_body]
pub(crate) fn chunk_len(chunk: &Bytes) -> (r: usize)
    ensures
        r == chunk_bytes(*chunk).len(),
{
    chunk.len()
}

/// `Bytes::split_to`: the first `at` bytes are taken off the buffer and
/// returned.
#[verifier::external_body]
pub(crate) fn split_chunk(chunk: &mut Bytes, at: usize) -> (r: Bytes)
    requires
        at <= chunk_bytes(*old(chunk)).len(),
    ensures
        chunk_bytes(r) == chunk_bytes(*old(chunk)).take(at as int),
        chunk_bytes(*final(chunk)) == chunk_bytes(*old(chunk)).skip(at as int),
{
    chunk.split_to(at)
}

/// The slice that a `Bytes` dereferences to: the bytes it holds.
#[verifier::external_body]
pub(crate) fn chunk_slice(chunk: &Bytes) -> (r: &[u8])
    ensures
        r@ == chunk_bytes(*chunk),
{
    &chunk[..]
}

/// The bytes of several chunks, one after the other.
pub open spec fn joined(chunks: Seq<Bytes>) -> Seq<u8>
    decreases chunks.len(),
{
    if chunks.len() == 0 {
        Seq::empty()
    } else {
        chunk_bytes(chunks[0]) + joined(chunks.drop_first())
    }
}

/// One more chunk adds its bytes at the end.
pub proof fn joined_push(chunks: Seq<Bytes>, chunk: Bytes)
    ensures
        joined(chunks.push(chunk)) == joined(chunks) + chunk_bytes(chunk),
    decreases chunks.len(),
{
    if chunks.len() == 0 {
        reveal_with_fuel(joined, 2);
        assert(chunks.push(chunk).drop_first() =~= chunks);
        assert(joined(chunks.push(chunk)) =~= joined(chunks) + chunk_bytes(chunk));
    } else {
        joined_push(chunks.drop_first(), chunk);
        assert(chunks.push(chunk).drop_first() =~= chunks.drop_first().push(chunk));
        assert(joined(chunks.push(chunk)) =~= joined(chunks) + chunk_bytes(chunk));
    }
}

/// Take the first `max` queued bytes, or all there are, off the front of the
/// queue.
pub(crate) fn take_front(chunks: &mut VecDeque<Bytes>, max: usize) -> (r: Vec<u8>)
    ensures
        r@.len() == if max < joined(old(chunks)@).len() {
            max as int
        } else {
            joined(old(chunks)@).len() as int
        },
        r@ + joined(final(chunks)@) == joined(old(chunks)@),
{
    let mut out: Vec<u8> = Vec::new();
    assert(out@ + joined(chunks@) =~= joined(old(chunks)@));
    while out.len() < max && chunks.len() > 0
        invariant
            out@.len() <= max,
            out@ + joined(chunks@) == joined(old(chunks)@),
        ensures
            out@.len() == max || chunks@.len() == 0,
        decreases chunks@.len(),
    {
        let ghost before = chunks@;
        let ghost out_before = out@;
        let room: usize = max - out.len();
        let mut front = match chunks.pop_front() {
            Some(front) => front,
            None => break,
        };
        assert(chunks@ =~= before.drop_first());
        assert(joined(before) == chunk_bytes(before[0]) + joined(before.drop_first()));
        if chunk_len(&front) <= room {
            out.extend_from_slice(chunk_slice(&front));
            assert(out@ =~= out_before + chunk_bytes(before[0]));
            assert(out@ + joined(chunks@) =~= out_before + joined(before));
        } else {
            let head = split_chunk(&mut front, room);
            out.extend_from_slice(chunk_slice(&head));
            assert(out@ =~= out_before + chunk_bytes(before[0]).take(room as int));
            chunks.push_front(front);
            proof {
                assert(chunks@.drop_first() =~= before.drop_first());
                assert(chunks@[0] == front);
                assert(out@ + joined(chunks@) =~= out_before + joined(before));
            }
            break;
        }
    }
    assert((out@ + joined(chunks@)).len() == out@.len() + joined(chunks@).len());
    out
}

/// The bytes of chunks are those of the first and then those of the others.
pub proof fn chunks_are_joined_in_order(chunks: Seq<Bytes>, first: Bytes)
    ensures
        joined(Seq::empty()) == Seq::<u8>::empty(),
        joined(seq![first] + chunks) == chunk_bytes(first) + joined(chunks),
{
    let all = seq![first] + chunks;
    assert(all.drop_first() =~= chunks);
    assert(all[0] == first);
}

} // verus!
