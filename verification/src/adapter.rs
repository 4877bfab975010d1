//! Model of the streaming adapter that carries a TCP byte stream as an HTTP
//! body.
//!
//! Each direction of a tunnelled connection is framed as a sequence of
//! variable-size chunks.  The functions here pin down what that framing and
//! its undoing preserve: `chunk_stream` cuts a buffer into chunks without
//! losing, duplicating or reordering a byte, and `copy_chunks` (the model of
//! the copy loop feeding a socket half) writes exactly the carried bytes, in
//! order.  The valve that ends a stream early always cuts at a chunk
//! boundary; the law `lemma_valve_cuts_at_chunk_boundary` says that whatever
//! was delivered before the cut is an unharmed prefix.

use vstd::prelude::*;
use vstd::slice::{slice_subrange, slice_to_vec};

verus! {

/// The bytes carried by a sequence of chunks, in order.
pub open spec fn flatten(chunks: Seq<Seq<u8>>) -> Seq<u8>
    decreases chunks.len(),
{
    if chunks.len() == 0 {
        Seq::empty()
    } else {
        flatten(chunks.drop_last()) + chunks.last()
    }
}

/// The chunk views of an executable chunk list.
pub open spec fn chunks_view(c: Seq<Vec<u8>>) -> Seq<Seq<u8>> {
    c.map_values(|v: Vec<u8>| v@)
}

/// The chunking of `data` into pieces of `size` bytes, the last piece
/// shorter.  A `size` of zero is read as "one undivided chunk".
pub open spec fn spec_chunks_of(data: Seq<u8>, size: nat) -> Seq<Seq<u8>>
    decreases data.len(),
{
    if data.len() == 0 {
        Seq::empty()
    } else if size == 0 || data.len() <= size {
        seq![data]
    } else {
        seq![data.take(size as int)] + spec_chunks_of(data.skip(size as int), size)
    }
}

proof fn lemma_flatten_empty()
    ensures
        flatten(Seq::<Seq<u8>>::empty()) == Seq::<u8>::empty(),
{
}

proof fn lemma_flatten_singleton(c: Seq<u8>)
    ensures
        flatten(seq![c]) == c,
{
    lemma_flatten_empty();
    assert(seq![c].drop_last() =~= Seq::<Seq<u8>>::empty());
    assert(seq![c].last() == c);
    assert(Seq::<u8>::empty() + c =~= c);
}

/// Flattening distributes over concatenation of chunk sequences.
pub proof fn lemma_flatten_concat(a: Seq<Seq<u8>>, b: Seq<Seq<u8>>)
    ensures
        flatten(a + b) == flatten(a) + flatten(b),
    decreases b.len(),
{
    if b.len() == 0 {
        assert(a + b =~= a);
        assert(flatten(a) + flatten(b) =~= flatten(a));
    } else {
        lemma_flatten_concat(a, b.drop_last());
        assert((a + b).drop_last() =~= a + b.drop_last());
        assert((a + b).last() == b.last());
        assert(flatten(a) + flatten(b.drop_last()) + b.last() =~= flatten(a) + flatten(b));
    }
}

/// Byte fidelity of one direction: cutting a buffer into chunks of any
/// granularity and concatenating what arrives yields the buffer again, with
/// no byte lost, duplicated or reordered.
pub proof fn lemma_stream_fidelity(data: Seq<u8>, size: nat)
    ensures
        flatten(spec_chunks_of(data, size)) == data,
    decreases data.len(),
{
    if data.len() == 0 {
        lemma_flatten_empty();
        assert(spec_chunks_of(data, size) =~= Seq::<Seq<u8>>::empty());
    } else if size == 0 || data.len() <= size {
        lemma_flatten_singleton(data);
    } else {
        let head = seq![data.take(size as int)];
        let tail = spec_chunks_of(data.skip(size as int), size);
        lemma_stream_fidelity(data.skip(size as int), size);
        lemma_flatten_concat(head, tail);
        lemma_flatten_singleton(data.take(size as int));
        assert(data.take(size as int) + data.skip(size as int) =~= data);
    }
}

/// The two directions of a session are independent streams: for any pair of
/// buffers, carrying each through its own direction delivers exactly that
/// buffer at the far end, whatever chunk granularity either side uses.
pub proof fn lemma_full_duplex_round_trip(a: Seq<u8>, b: Seq<u8>, size_up: nat, size_down: nat)
    ensures
        flatten(spec_chunks_of(a, size_up)) == a,
        flatten(spec_chunks_of(b, size_down)) == b,
{
    lemma_stream_fidelity(a, size_up);
    lemma_stream_fidelity(b, size_down);
}

/// Ending a chunk stream early - by the download valve or by an upload
/// cancellation - cuts at a chunk boundary: what was already delivered is
/// exactly a prefix of the full stream, so no byte in flight is corrupted,
/// only further copying stops.
pub proof fn lemma_valve_cuts_at_chunk_boundary(chunks: Seq<Seq<u8>>, k: int)
    requires
        0 <= k <= chunks.len(),
    ensures
        flatten(chunks) == flatten(chunks.take(k)) + flatten(chunks.skip(k)),
        flatten(chunks.take(k)) == flatten(chunks).take(flatten(chunks.take(k)).len() as int),
{
    lemma_flatten_concat(chunks.take(k), chunks.skip(k));
    assert(chunks.take(k) + chunks.skip(k) =~= chunks);
    let delivered = flatten(chunks.take(k));
    assert(delivered =~= flatten(chunks).take(delivered.len() as int));
}

/// A zero-byte payload makes an empty chunk stream, which carries nothing:
/// both ends see immediate end-of-stream rather than a stuck transfer.
pub proof fn lemma_empty_payload(size: nat)
    ensures
        spec_chunks_of(Seq::<u8>::empty(), size) == Seq::<Seq<u8>>::empty(),
        flatten(Seq::<Seq<u8>>::empty()) == Seq::<u8>::empty(),
{
    assert(flatten(Seq::<Seq<u8>>::empty()) =~= Seq::<u8>::empty());
}

/// Write one chunk to a sink, after everything written so far.
pub fn push_chunk(sink: &mut Vec<u8>, chunk: &[u8])
    ensures
        final(sink)@ == old(sink)@ + chunk@,
{
    let mut piece = slice_to_vec(chunk);
    sink.append(&mut piece);
}

/// The copy loop of one direction: drain a chunk stream into a sink.  The
/// sink receives exactly the carried bytes, in order.
pub fn copy_chunks(chunks: &Vec<Vec<u8>>, sink: &mut Vec<u8>)
    ensures
        final(sink)@ == old(sink)@ + flatten(chunks_view(chunks@)),
{
    let ghost all = chunks_view(chunks@);
    let mut i: usize = 0;
    while i < chunks.len()
        invariant
            i <= chunks.len(),
            all == chunks_view(chunks@),
            sink@ == old(sink)@ + flatten(all.take(i as int)),
        decreases chunks@.len() - i,
    {
        push_chunk(sink, chunks[i].as_slice());
        proof {
            assert(all.take(i + 1).drop_last() =~= all.take(i as int));
            assert(all.take(i + 1).last() == chunks@[i as int]@);
        }
        i = i + 1;
    }
    proof {
        assert(all.take(chunks@.len() as int) =~= all);
    }
}

/// Frame a buffer as a stream of chunks of `size` bytes each, the last one
/// shorter.  This is the model of reading a socket half into an HTTP body.
pub fn chunk_stream(data: &[u8], size: usize) -> (r: Vec<Vec<u8>>)
    requires
        size > 0,
    ensures
        chunks_view(r@) == spec_chunks_of(data@, size as nat),
        flatten(chunks_view(r@)) == data@,
{
    let mut out: Vec<Vec<u8>> = Vec::new();
    let mut i: usize = 0;
    proof {
        assert(data@.skip(0) =~= data@);
        assert(chunks_view(Seq::<Vec<u8>>::empty()) + spec_chunks_of(data@, size as nat)
            =~= spec_chunks_of(data@, size as nat));
    }
    while i < data.len()
        invariant
            size > 0,
            i <= data@.len(),
            chunks_view(out@) + spec_chunks_of(data@.skip(i as int), size as nat)
                =~= spec_chunks_of(data@, size as nat),
        decreases data@.len() - i,
    {
        let end = if data.len() - i <= size {
            data.len()
        } else {
            i + size
        };
        let piece = slice_to_vec(slice_subrange(data, i, end));
        let ghost rest = data@.skip(i as int);
        out.push(piece);
        proof {
            if data@.len() - i <= size {
                assert(rest.len() <= size);
                assert(piece@ =~= rest);
                assert(spec_chunks_of(rest, size as nat) == seq![rest]);
                assert(chunks_view(out@) =~= chunks_view(out@.drop_last()) + seq![rest]);
                assert(data@.skip(end as int) =~= Seq::<u8>::empty());
                assert(spec_chunks_of(data@.skip(end as int), size as nat)
                    =~= Seq::<Seq<u8>>::empty());
                assert(chunks_view(out@) + spec_chunks_of(data@.skip(end as int), size as nat)
                    =~= chunks_view(out@.drop_last()) + seq![rest]);
            } else {
                assert(piece@ =~= rest.take(size as int));
                assert(rest.skip(size as int) =~= data@.skip(end as int));
                assert(spec_chunks_of(rest, size as nat) == seq![rest.take(size as int)]
                    + spec_chunks_of(data@.skip(end as int), size as nat));
                assert(chunks_view(out@) =~= chunks_view(out@.drop_last()) + seq![piece@]);
                assert(chunks_view(out@) + spec_chunks_of(data@.skip(end as int), size as nat)
                    =~= chunks_view(out@.drop_last()) + spec_chunks_of(rest, size as nat));
            }
        }
        i = end;
    }
    proof {
        assert(data@.skip(data@.len() as int) =~= Seq::<u8>::empty());
        assert(chunks_view(out@) + Seq::<Seq<u8>>::empty() =~= chunks_view(out@));
        lemma_stream_fidelity(data@, size as nat);
    }
    out
}

} // verus!
