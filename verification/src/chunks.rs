//! Height ranges and their partition into chunks of bounded size.

use vstd::prelude::*;

verus! {

/// An inclusive range of heights, as a mathematical value.
pub struct HeightRange {
    pub first: int,
    pub last: int,
}

impl HeightRange {
    pub open spec fn contains(self, height: int) -> bool {
        self.first <= height <= self.last
    }

    pub open spec fn len(self) -> int {
        self.last - self.first + 1
    }
}

/// A contiguous range of block heights, both ends included, that is fetched
/// and stored as one unit.
#[derive(Clone, Copy, Debug, PartialEq, Eq, Structural)]
pub struct Chunk {
    pub start_height: i64,
    pub end_height: i64,
}

impl View for Chunk {
    type V = HeightRange;

    open spec fn view(&self) -> HeightRange {
        HeightRange { first: self.start_height as int, last: self.end_height as int }
    }
}

/// The ranges that a sequence of chunks stands for.
pub open spec fn ranges_of(chunks: Seq<Chunk>) -> Seq<HeightRange> {
    Seq::new(chunks.len(), |i: int| chunks[i]@)
}

/// The partition of `[from, to]` into consecutive ranges of `size` heights,
/// the last one cut off at `to`. Empty when `to < from`.
pub open spec fn chunks_of(from: int, to: int, size: int) -> Seq<HeightRange>
    decreases to - from + 1,
{
    if to < from || size < 1 {
        Seq::empty()
    } else if to - from < size {
        seq![HeightRange { first: from, last: to }]
    } else {
        seq![HeightRange { first: from, last: from + size - 1 }] + chunks_of(from + size, to, size)
    }
}

/// The numbers of a sequence of machine integers.
pub open spec fn ints_of(values: Seq<i64>) -> Seq<int> {
    Seq::new(values.len(), |i: int| values[i] as int)
}

/// The heights `first, first + 1, ..., last` in ascending order.
pub open spec fn heights_of(first: int, last: int) -> Seq<int> {
    Seq::new(
        if last < first {
            0nat
        } else {
            (last - first + 1) as nat
        },
        |i: int| first + i,
    )
}

/// Every range of the partition lies inside `[from, to]`, is not empty and
/// holds at most `size` heights; the first starts at `from`, the last ends at
/// `to`, and each range starts right after the one before it.
pub proof fn lemma_chunks_are_contiguous(from: int, to: int, size: int)
    requires
        size >= 1,
    ensures
        (to < from) <==> chunks_of(from, to, size).len() == 0,
        from <= to ==> chunks_of(from, to, size).first().first == from,
        from <= to ==> chunks_of(from, to, size).last().last == to,
        forall|k: int|
            0 <= k < chunks_of(from, to, size).len() ==> {
                let c = #[trigger] chunks_of(from, to, size)[k];
                from <= c.first <= c.last <= to && 1 <= c.len() <= size
            },
        forall|k: int|
            0 <= k < chunks_of(from, to, size).len() - 1 ==> (#[trigger] chunks_of(
                from,
                to,
                size,
            )[k]).len() == size,
        forall|k: int|
            0 <= k < chunks_of(from, to, size).len() - 1 ==> chunks_of(from, to, size)[k + 1].first
                == (#[trigger] chunks_of(from, to, size)[k]).last + 1,
    decreases to - from + 1,
{
    let all = chunks_of(from, to, size);
    if to < from {
    } else if to - from < size {
    } else {
        let head = seq![HeightRange { first: from, last: from + size - 1 }];
        let rest = chunks_of(from + size, to, size);
        lemma_chunks_are_contiguous(from + size, to, size);
        assert(all == head + rest);
        assert(all.len() == rest.len() + 1);
        assert(all[0] == head[0]);
        assert forall|k: int| 1 <= k < all.len() implies all[k] == rest[k - 1] by {}
        assert(all.last() == rest.last());
        assert forall|k: int| 0 <= k < all.len() implies {
            let c = #[trigger] all[k];
            from <= c.first <= c.last <= to && 1 <= c.len() <= size
        } by {
            if k > 0 {
                assert(all[k] == rest[k - 1]);
            }
        }
        assert forall|k: int| 0 <= k < all.len() - 1 implies (#[trigger] all[k]).len() == size by {
            if k > 0 {
                assert(all[k] == rest[k - 1]);
            }
        }
        assert forall|k: int| 0 <= k < all.len() - 1 implies all[k + 1].first == (
        #[trigger] all[k]).last + 1 by {
            assert(all[k + 1] == rest[k]);
            if k > 0 {
                assert(all[k] == rest[k - 1]);
            }
        }
    }
}

/// The ranges of the partition come in ascending order without overlap: a
/// later range starts above the end of every earlier one.
pub proof fn lemma_chunks_are_ordered(from: int, to: int, size: int, i: int, j: int)
    requires
        size >= 1,
        0 <= i < j < chunks_of(from, to, size).len(),
    ensures
        chunks_of(from, to, size)[i].last < chunks_of(from, to, size)[j].first,
    decreases j - i,
{
    lemma_chunks_are_contiguous(from, to, size);
    let all = chunks_of(from, to, size);
    if j == i + 1 {
        assert(all[i + 1].first == all[i].last + 1);
    } else {
        lemma_chunks_are_ordered(from, to, size, i, j - 1);
        assert(all[(j - 1) + 1].first == all[j - 1].last + 1);
    }
}

/// Every height of `[from, to]` lies in exactly one range of the partition,
/// and the partition holds no other height.
pub proof fn lemma_chunks_cover_exactly_once(from: int, to: int, size: int, height: int)
    requires
        size >= 1,
    ensures
        (from <= height <= to) <==> exists|k: int|
            0 <= k < chunks_of(from, to, size).len() && (#[trigger] chunks_of(
                from,
                to,
                size,
            )[k]).contains(height),
        forall|i: int, j: int|
            0 <= i < chunks_of(from, to, size).len() && 0 <= j < chunks_of(from, to, size).len()
                && (#[trigger] chunks_of(from, to, size)[i]).contains(height) && (
            #[trigger] chunks_of(from, to, size)[j]).contains(height) ==> i == j,
    decreases to - from + 1,
{
    let all = chunks_of(from, to, size);
    lemma_chunks_are_contiguous(from, to, size);
    assert forall|i: int, j: int|
        0 <= i < all.len() && 0 <= j < all.len() && (#[trigger] all[i]).contains(height) && (
        #[trigger] all[j]).contains(height) implies i == j by {
        if i < j {
            lemma_chunks_are_ordered(from, to, size, i, j);
        } else if j < i {
            lemma_chunks_are_ordered(from, to, size, j, i);
        }
    }
    if to < from {
    } else if to - from < size {
        assert(all[0].contains(height) <==> from <= height <= to);
    } else {
        let rest = chunks_of(from + size, to, size);
        lemma_chunks_cover_exactly_once(from + size, to, size, height);
        assert(all == seq![HeightRange { first: from, last: from + size - 1 }] + rest);
        assert forall|k: int| 1 <= k < all.len() implies all[k] == rest[k - 1] by {}
        if from <= height <= to {
            if height < from + size {
                assert(all[0].contains(height));
            } else {
                let k = choose|k: int| 0 <= k < rest.len() && (#[trigger] rest[k]).contains(height);
                assert(all[k + 1] == rest[k]);
                assert(all[k + 1].contains(height));
            }
        }
    }
}

impl Chunk {
    /// The heights of the chunk in ascending order; none when the chunk's
    /// end lies below its start.
    pub fn heights(&self) -> (res: Vec<i64>)
        ensures
            ints_of(res@) == heights_of(self.start_height as int, self.end_height as int),
    {
        let mut heights: Vec<i64> = Vec::new();
        if self.end_height < self.start_height {
            assert(ints_of(heights@) =~= heights_of(
                self.start_height as int,
                self.end_height as int,
            ));
            return heights;
        }
        let mut next: i64 = self.start_height;
        loop
            invariant_except_break
                self.start_height <= next <= self.end_height,
                heights@.len() == next - self.start_height,
                forall|i: int| 0 <= i < heights@.len() ==> heights@[i] == self.start_height + i,
            ensures
                heights@.len() == self.end_height - self.start_height + 1,
                forall|i: int| 0 <= i < heights@.len() ==> heights@[i] == self.start_height + i,
            decreases self.end_height - next,
        {
            heights.push(next);
            if next == self.end_height {
                break;
            }
            next = next + 1;
        }
        assert(ints_of(heights@) =~= heights_of(self.start_height as int, self.end_height as int));
        heights
    }
}

/// Cuts `[from, to]` into chunks of `size` heights; the last chunk ends at
/// `to`. There is no chunk when `to < from`.
pub fn partition(from: i64, to: i64, size: u64) -> (res: Vec<Chunk>)
    requires
        size >= 1,
    ensures
        ranges_of(res@) == chunks_of(from as int, to as int, size as int),
        res@.len() == chunks_of(from as int, to as int, size as int).len(),
{
    let mut chunks: Vec<Chunk> = Vec::new();
    if to < from {
        assert(ranges_of(chunks@) =~= chunks_of(from as int, to as int, size as int));
        return chunks;
    }
    let mut start: i64 = from;
    loop
        invariant_except_break
            size >= 1,
            from <= start <= to,
            ranges_of(chunks@) + chunks_of(start as int, to as int, size as int) == chunks_of(
                from as int,
                to as int,
                size as int,
            ),
        ensures
            ranges_of(chunks@) == chunks_of(from as int, to as int, size as int),
        decreases to - start,
    {
        let ghost before = chunks@;
        let left: i128 = to as i128 - start as i128;
        if left < size as i128 {
            chunks.push(Chunk { start_height: start, end_height: to });
            proof {
                assert(chunks_of(start as int, to as int, size as int) =~= seq![
                    HeightRange { first: start as int, last: to as int },
                ]);
                assert(ranges_of(chunks@) =~= ranges_of(before) + chunks_of(
                    start as int,
                    to as int,
                    size as int,
                ));
            }
            break;
        }
        let end: i64 = (start as i128 + size as i128 - 1) as i64;
        chunks.push(Chunk { start_height: start, end_height: end });
        proof {
            let head = seq![HeightRange { first: start as int, last: start + size - 1 }];
            let rest = chunks_of(start + size, to as int, size as int);
            assert(chunks_of(start as int, to as int, size as int) == head + rest);
            assert(ranges_of(chunks@) =~= ranges_of(before) + head);
            assert((ranges_of(before) + head) + rest =~= ranges_of(before) + (head + rest));
        }
        start = end + 1;
    }
    chunks
}

} // verus!
