//! Partitioning a resource of known length into byte ranges.
use vstd::prelude::*;

verus! {

/// Number of byte ranges a segmented download is split into.
pub const SEGMENT_COUNT: u64 = 32;

/// An inclusive byte range `[start, end]` of a resource.
#[derive(Clone, Copy, Debug, PartialEq, Eq, Structural)]
pub struct Segment {
    pub start: u64,
    pub end: u64,
}

/// First offset of range `i` when `total` bytes are split into `count` ranges.
pub open spec fn seg_start(total: nat, count: nat, i: nat) -> nat {
    i * (total / count)
}

/// Last offset (inclusive) of range `i`; the final range absorbs the remainder.
pub open spec fn seg_end(total: nat, count: nat, i: nat) -> int {
    if i + 1 == count {
        total - 1
    } else {
        (i + 1) * (total / count) - 1
    }
}

impl Segment {
    /// Number of bytes in the range.
    pub open spec fn len_spec(&self) -> int {
        self.end - self.start + 1
    }

    /// Whether offset `o` lies in this range.
    pub open spec fn covers(&self, o: int) -> bool {
        self.start <= o <= self.end
    }

    /// Whether `received` bytes are exactly what this range asks for. A server
    /// that ignores range requests sends the whole body instead, and fails this.
    pub fn is_complete(&self, received: u64) -> (r: bool)
        requires
            self.start <= self.end,
        ensures
            r == (received == self.len_spec()),
    {
        received > 0 && received - 1 == self.end - self.start
    }
}

/// The number of bytes that the ranges of `segs` hold together.
pub open spec fn lengths_sum(segs: Seq<Segment>) -> int
    decreases segs.len(),
{
    if segs.len() == 0 {
        0
    } else {
        lengths_sum(segs.drop_last()) + segs.last().len_spec()
    }
}

/// Whether some range of `segs` holds offset `o`.
pub open spec fn covered(segs: Seq<Segment>, o: int) -> bool {
    exists|i: int| 0 <= i < segs.len() && #[trigger] segs[i].covers(o)
}

/// Whether `segs` is the partition of `total` bytes into `count` ranges.
pub open spec fn is_partition(segs: Seq<Segment>, total: nat, count: nat) -> bool {
    &&& segs.len() == count
    &&& forall|i: int|
        #![trigger segs[i]]
        0 <= i < count ==> {
            &&& segs[i].start == seg_start(total, count, i as nat)
            &&& segs[i].end == seg_end(total, count, i as nat)
        }
}

proof fn lemma_chunk_bounds(total: nat, count: nat, i: nat)
    requires
        1 <= count <= total,
        i <= count,
    ensures
        total / count >= 1,
        i * (total / count) <= count * (total / count),
        count * (total / count) <= total,
        i < count ==> i * (total / count) + (total / count) <= count * (total / count),
{
    let c = total / count;
    vstd::arithmetic::div_mod::lemma_fundamental_div_mod(total as int, count as int);
    assert(c >= 1) by {
        vstd::arithmetic::div_mod::lemma_div_is_ordered(count as int, total as int, count as int);
        vstd::arithmetic::div_mod::lemma_div_basics(count as int);
    }
    assert(i * c <= count * c) by (nonlinear_arith)
        requires
            i <= count,
            c >= 1,
    ;
    assert(i < count ==> i * c + c <= count * c) by (nonlinear_arith)
        requires
            i <= count,
            c >= 1,
    ;
}

proof fn lemma_len_sum_prefix(segs: Seq<Segment>, total: nat, count: nat, k: nat)
    requires
        1 <= count <= total,
        is_partition(segs, total, count),
        k <= count,
    ensures
        k < count ==> lengths_sum(segs.subrange(0, k as int)) == k * (total / count),
        k == count ==> lengths_sum(segs.subrange(0, k as int)) == total,
    decreases k,
{
    let c = total / count;
    if k > 0 {
        let j = (k - 1) as nat;
        lemma_len_sum_prefix(segs, total, count, j);
        let pre = segs.subrange(0, k as int);
        assert(pre.drop_last() =~= segs.subrange(0, j as int));
        assert(pre.last() == segs[j as int]);
        assert(k * c == j * c + c && (j + 1) * c == k * c) by (nonlinear_arith)
            requires
                k == j + 1,
        ;
        if k < count {
            assert(seg_end(total, count, j) == k * c - 1);
        }
    } else {
        assert(segs.subrange(0, 0) =~= Seq::<Segment>::empty());
        assert(k * c == 0) by (nonlinear_arith)
            requires
                k == 0,
        ;
    }
}

/// The ranges of a partition follow one another with no gap from 0 to `total - 1`.
pub proof fn lemma_segments_contiguous(segs: Seq<Segment>, total: nat, count: nat)
    requires
        1 <= count <= total,
        is_partition(segs, total, count),
    ensures
        segs[0].start == 0,
        segs[count - 1].end == total - 1,
        forall|i: int| 0 <= i < count ==> #[trigger] segs[i].start <= segs[i].end,
        forall|i: int| 0 <= i < count ==> #[trigger] segs[i].end < total,
        forall|i: int| 0 <= i < count - 1 ==> #[trigger] segs[i].end + 1 == segs[i + 1].start,
{
    let c = total / count;
    lemma_chunk_bounds(total, count, 0);
    assert(segs[0].start == 0);
    assert forall|i: int| 0 <= i < count implies #[trigger] segs[i].start <= segs[i].end && segs[i].end < total by {
        lemma_chunk_bounds(total, count, i as nat);
        assert((i + 1) * c == i * c + c) by (nonlinear_arith);
    }
    assert forall|i: int| 0 <= i < count - 1 implies #[trigger] segs[i].end + 1 == segs[i + 1].start by {
        assert(segs[i].end == seg_end(total, count, i as nat));
        assert(seg_end(total, count, i as nat) == (i + 1) * c - 1);
        assert(segs[i + 1].start == (i + 1) * c);
    }
}

/// The ranges of a segmented download partition `[0, total - 1]`: each is
/// non-empty, the first starts at 0, each one ends right before the next one
/// starts, the last ends at `total - 1`, their lengths add up to `total`, and
/// every offset below `total` lies in exactly one of them.
pub proof fn lemma_segments_partition(segs: Seq<Segment>, total: nat, count: nat)
    requires
        1 <= count <= total,
        is_partition(segs, total, count),
    ensures
        segs[0].start == 0,
        segs[count - 1].end == total - 1,
        forall|i: int| 0 <= i < count ==> #[trigger] segs[i].start <= segs[i].end,
        forall|i: int| 0 <= i < count - 1 ==> #[trigger] segs[i].end + 1 == segs[i + 1].start,
        lengths_sum(segs) == total,
        forall|o: int| 0 <= o < total ==> #[trigger] covered(segs, o),
        forall|o: int, i: int, j: int|
            0 <= i < count && 0 <= j < count && #[trigger] segs[i].covers(o) && #[trigger] segs[j].covers(o)
                ==> i == j,
{
    let c = total / count;
    lemma_chunk_bounds(total, count, 0);
    lemma_segments_contiguous(segs, total, count);
    lemma_len_sum_prefix(segs, total, count, count);
    assert(segs.subrange(0, count as int) =~= segs);
    // Each offset lies in the range numbered by its quotient by the chunk size, capped at the last.
    assert forall|o: int| 0 <= o < total implies #[trigger] covered(segs, o) by {
        let q = o / (c as int);
        vstd::arithmetic::div_mod::lemma_fundamental_div_mod(o, c as int);
        vstd::arithmetic::div_mod::lemma_mod_bound(o, c as int);
        vstd::arithmetic::div_mod::lemma_div_pos_is_pos(o, c as int);
        if q < count - 1 {
            assert((q + 1) * c == q * c + c) by (nonlinear_arith);
            assert(segs[q].covers(o));
        } else {
            let l = count - 1;
            assert(l * c <= q * c) by (nonlinear_arith)
                requires
                    l <= q,
                    c >= 1,
            ;
            assert(q * c <= o) by (nonlinear_arith)
                requires
                    o == c * q + o % (c as int),
                    o % (c as int) >= 0,
            ;
            assert(segs[l].start == l * c);
            assert(segs[l].covers(o));
        }
    }
    assert forall|o: int, i: int, j: int|
        0 <= i < count && 0 <= j < count && #[trigger] segs[i].covers(o) && #[trigger] segs[j].covers(o)
            implies i == j by {
        if i < j {
            lemma_chunk_bounds(total, count, i as nat);
            assert((i + 1) * c <= j * c) by (nonlinear_arith)
                requires
                    i + 1 <= j,
                    c >= 1,
            ;
        } else if j < i {
            lemma_chunk_bounds(total, count, j as nat);
            assert((j + 1) * c <= i * c) by (nonlinear_arith)
                requires
                    j + 1 <= i,
                    c >= 1,
            ;
        }
    }
}

/// Splits `total` bytes into `count` inclusive ranges: range `i` starts at
/// `i * (total / count)`, and the last one runs to `total - 1`.
pub fn plan_segments(total: u64, count: u64) -> (segs: Vec<Segment>)
    requires
        1 <= count <= total,
    ensures
        is_partition(segs@, total as nat, count as nat),
{
    let chunk: u64 = total / count;
    let mut segs: Vec<Segment> = Vec::new();
    let mut i: u64 = 0;
    while i < count
        invariant
            1 <= count <= total,
            chunk == total / count,
            i <= count,
            segs@.len() == i,
            forall|j: int|
                0 <= j < i ==> {
                    &&& #[trigger] segs@[j].start == seg_start(total as nat, count as nat, j as nat)
                    &&& segs@[j].end == seg_end(total as nat, count as nat, j as nat)
                },
        decreases count - i,
    {
        proof {
            lemma_chunk_bounds(total as nat, count as nat, i as nat);
        }
        let start: u64 = i * chunk;
        let end: u64 = if i == count - 1 {
            total - 1
        } else {
            start + chunk - 1
        };
        assert((i + 1) * chunk == i * chunk + chunk) by (nonlinear_arith);
        segs.push(Segment { start, end });
        i = i + 1;
    }
    segs
}

} // verus!
