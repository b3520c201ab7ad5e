//! The destination file as a sequence of bytes, and what writes do to it.
use vstd::prelude::*;
use crate::segment::{Segment, is_partition, lemma_segments_contiguous};

verus! {

/// The file after writing `data` at offset `off`: bytes in between that were
/// never written read as zero, bytes past the write are kept.
#[verifier::opaque]
pub open spec fn write_at(file: Seq<u8>, off: nat, data: Seq<u8>) -> Seq<u8> {
    let len = if off + data.len() > file.len() { off + data.len() } else { file.len() };
    Seq::new(
        len,
        |i: int|
            if off <= i < off + data.len() {
                data[i - off]
            } else if i < file.len() {
                file[i]
            } else {
                0u8
            },
    )
}

/// The file after each part is written at its offset, in order.
pub open spec fn write_parts(file: Seq<u8>, parts: Seq<(nat, Seq<u8>)>) -> Seq<u8>
    decreases parts.len(),
{
    if parts.len() == 0 {
        file
    } else {
        write_parts(write_at(file, parts[0].0, parts[0].1), parts.drop_first())
    }
}

/// The file after each chunk is written where the previous one ended.
pub open spec fn write_stream(file: Seq<u8>, chunks: Seq<Seq<u8>>) -> Seq<u8>
    decreases chunks.len(),
{
    if chunks.len() == 0 {
        file
    } else {
        write_stream(file + chunks[0], chunks.drop_first())
    }
}

/// The chunks joined in order.
pub open spec fn concat(chunks: Seq<Seq<u8>>) -> Seq<u8>
    decreases chunks.len(),
{
    if chunks.len() == 0 {
        Seq::empty()
    } else {
        chunks[0] + concat(chunks.drop_first())
    }
}

/// The parts that a segmented download of `body` writes: each range's bytes
/// at the range's start.
pub open spec fn segment_parts(body: Seq<u8>, segs: Seq<Segment>) -> Seq<(nat, Seq<u8>)> {
    Seq::new(
        segs.len(),
        |i: int| (segs[i].start as nat, body.subrange(segs[i].start as int, segs[i].end + 1)),
    )
}

proof fn lemma_write_at_end(file: Seq<u8>, data: Seq<u8>)
    ensures
        write_at(file, file.len(), data) == file + data,
{
    reveal(write_at);
    assert(write_at(file, file.len(), data) =~= file + data);
}

/// Writing a body's chunks one after another appends exactly those bytes, in
/// order: over an empty file, the file ends up holding the body.
pub proof fn lemma_write_stream(file: Seq<u8>, chunks: Seq<Seq<u8>>)
    ensures
        write_stream(file, chunks) == file + concat(chunks),
    decreases chunks.len(),
{
    if chunks.len() == 0 {
        assert(file + concat(chunks) =~= file);
    } else {
        lemma_write_stream(file + chunks[0], chunks.drop_first());
        assert((file + chunks[0]) + concat(chunks.drop_first()) =~= file + concat(chunks));
    }
}

proof fn lemma_write_parts_from(body: Seq<u8>, segs: Seq<Segment>, count: nat, k: nat)
    requires
        1 <= count <= body.len(),
        segs.len() == count,
        segs[count - 1].end == body.len() - 1,
        forall|i: int| 0 <= i < count ==> #[trigger] segs[i].start <= segs[i].end,
        forall|i: int| 0 <= i < count ==> #[trigger] segs[i].end < body.len(),
        forall|i: int| 0 <= i < count - 1 ==> #[trigger] segs[i].end + 1 == segs[i + 1].start,
        segs[0].start == 0,
        k <= count,
    ensures
        write_parts(
            body.subrange(0, if k == 0 { 0 } else { segs[k - 1].end + 1 }),
            segment_parts(body, segs).subrange(k as int, count as int),
        ) == body,
    decreases count - k,
{
    let parts = segment_parts(body, segs);
    let done = if k == 0 { 0 } else { segs[k - 1].end + 1 };
    let file = body.subrange(0, done);
    if k == count {
        assert(file =~= body);
    } else {
        let rest = parts.subrange(k as int, count as int);
        assert(segs[k as int].start == done) by {
            if k > 0 {
                assert(segs[k - 1].end + 1 == segs[k - 1 + 1].start);
            }
        }
        assert(rest[0] == parts[k as int]);
        assert(file.len() == done);
        assert(write_parts(file, rest) == write_parts(write_at(file, rest[0].0, rest[0].1), rest.drop_first()));
        let data = body.subrange(segs[k as int].start as int, segs[k as int].end + 1);
        lemma_write_at_end(file, data);
        assert(file + data =~= body.subrange(0, segs[k as int].end + 1));
        assert(rest.drop_first() =~= parts.subrange(k + 1 as int, count as int));
        lemma_write_parts_from(body, segs, count, k + 1);
    }
}

/// A segmented download and a sequential one of the same body leave the same
/// file: writing each range's bytes at its start, over an empty file, gives
/// the body, and so does writing the body's chunks one after another.
pub proof fn lemma_segmented_matches_sequential(
    body: Seq<u8>,
    segs: Seq<Segment>,
    count: nat,
    chunks: Seq<Seq<u8>>,
)
    requires
        1 <= count <= body.len(),
        is_partition(segs, body.len(), count),
        concat(chunks) == body,
    ensures
        write_parts(Seq::empty(), segment_parts(body, segs)) == body,
        write_stream(Seq::empty(), chunks) == body,
{
    lemma_segments_contiguous(segs, body.len(), count);
    lemma_write_parts_from(body, segs, count, 0);
    assert(body.subrange(0, 0) =~= Seq::<u8>::empty());
    assert(segment_parts(body, segs).subrange(0, count as int) =~= segment_parts(body, segs));
    lemma_write_stream(Seq::empty(), chunks);
    assert(Seq::<u8>::empty() + body =~= body);
}

} // verus!
