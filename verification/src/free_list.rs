//! The free list of the memory pool: recycled blocks, put in by offset and merged.

use vstd::prelude::*;

verus! {

/// A free stretch of pool memory.
#[derive(Debug, Clone, Copy, PartialEq, Eq, Structural)]
pub struct FreeBlock {
    pub offset: usize,
    pub size: usize,
}

impl FreeBlock {
    /// The offset just past the block.
    pub open spec fn end(self) -> int {
        self.offset + self.size
    }

    /// Byte `p` of the pool lies in the block.
    pub open spec fn covers(self, p: int) -> bool {
        self.offset <= p < self.end()
    }

    /// No byte lies in both blocks.
    pub open spec fn apart_from(self, other: FreeBlock) -> bool {
        self.size == 0 || other.size == 0 || self.end() <= other.offset || other.end()
            <= self.offset
    }
}

/// `size` rounded up to a multiple of 64, which every allocation occupies.
pub open spec fn round_up(size: int) -> int {
    (size + 63) / 64 * 64
}

/// The two blocks as one, for a second that starts where the first ends.
pub open spec fn join(a: FreeBlock, b: FreeBlock) -> FreeBlock {
    FreeBlock { offset: a.offset, size: (a.size + b.size) as usize }
}

/// Blocks in order of their offsets, with a gap between any two of them.
pub open spec fn separated(s: Seq<FreeBlock>) -> bool {
    forall|i: int, j: int| 0 <= i < j < s.len() ==> (#[trigger] s[i]).end() < (#[trigger] s[j]).offset
}

/// No byte lies in two of the blocks.
pub open spec fn disjoint(s: Seq<FreeBlock>) -> bool {
    forall|i: int, j: int|
        0 <= i < j < s.len() ==> (#[trigger] s[i]).apart_from(#[trigger] s[j])
}

/// Every block ends at or before `limit`.
pub open spec fn within(s: Seq<FreeBlock>, limit: int) -> bool {
    forall|i: int| 0 <= i < s.len() ==> (#[trigger] s[i]).end() <= limit
}

/// Every block starts and ends at a multiple of 64.
pub open spec fn aligned(s: Seq<FreeBlock>) -> bool {
    forall|i: int|
        0 <= i < s.len() ==> (#[trigger] s[i]).offset as int % 64 == 0 && s[i].size as int % 64 == 0
}

/// Byte `p` lies in one of the blocks.
pub open spec fn covered(s: Seq<FreeBlock>, p: int) -> bool {
    exists|i: int| 0 <= i < s.len() && (#[trigger] s[i]).covers(p)
}

/// The number of bytes in all blocks together.
pub open spec fn total_size(s: Seq<FreeBlock>) -> int
    decreases s.len(),
{
    if s.len() == 0 {
        0
    } else {
        total_size(s.drop_last()) + s.last().size
    }
}

/// Every block holds at least a byte.
pub open spec fn solid(s: Seq<FreeBlock>) -> bool {
    forall|i: int| 0 <= i < s.len() ==> (#[trigger] s[i]).size > 0
}

/// Where a block that starts at `offset` goes in: before the first one that does not start
/// before it.
pub open spec fn position(s: Seq<FreeBlock>, offset: usize) -> int
    decreases s.len(),
{
    if s.len() == 0 {
        0
    } else if s[0].offset >= offset {
        0
    } else {
        1 + position(s.drop_first(), offset)
    }
}

/// The list with neighbours merged where one ends exactly where the next starts, from the front.
pub open spec fn merge(s: Seq<FreeBlock>) -> Seq<FreeBlock>
    decreases s.len(),
{
    if s.len() < 2 {
        s
    } else if s[0].end() == s[1].offset {
        merge(seq![join(s[0], s[1])] + s.skip(2))
    } else {
        seq![s[0]] + merge(s.drop_first())
    }
}

/// The list after `b` was given back: put in by its offset, and merged.
pub open spec fn place(s: Seq<FreeBlock>, b: FreeBlock) -> Seq<FreeBlock> {
    merge(s.insert(position(s, b.offset), b))
}

/// The index of the first block of at least `size` bytes, or the list's length.
pub open spec fn fit_index(s: Seq<FreeBlock>, size: int) -> int
    decreases s.len(),
{
    if s.len() == 0 {
        0
    } else if s[0].size >= size {
        0
    } else {
        1 + fit_index(s.drop_first(), size)
    }
}

/// The list after `size` bytes were cut from the front of block `i`.
pub open spec fn carve(s: Seq<FreeBlock>, i: int, size: int) -> Seq<FreeBlock> {
    if s[i].size == size {
        s.remove(i)
    } else {
        s.update(
            i,
            FreeBlock { offset: (s[i].offset + size) as usize, size: (s[i].size - size) as usize },
        )
    }
}

/// `size` rounded up to a multiple of 64.
pub fn align_size(size: usize) -> (r: usize)
    requires
        size + 63 <= usize::MAX,
    ensures
        r == round_up(size as int),
        size <= r < size + 64,
{
    let x: usize = size + 63;
    assert(x & !63usize == (x / 64usize) * 64usize) by (bit_vector);
    x & !63
}

/// Where a block that starts at `offset` goes in.
fn search(list: &Vec<FreeBlock>, offset: usize) -> (pos: usize)
    ensures
        pos == position(list@, offset),
        pos <= list@.len(),
{
    let mut pos: usize = 0;
    assert(list@.skip(0) =~= list@);
    while pos < list.len() && list[pos].offset < offset
        invariant
            pos <= list@.len(),
            position(list@, offset) == pos + position(list@.skip(pos as int), offset),
        decreases list@.len() - pos,
    {
        assert(list@.skip(pos as int)[0] == list@[pos as int]);
        assert(list@.skip(pos as int).drop_first() =~= list@.skip(pos + 1));
        pos = pos + 1;
    }
    proof {
        if pos < list@.len() {
            assert(list@.skip(pos as int)[0] == list@[pos as int]);
        }
    }
    pos
}

/// Merges neighbours where one ends exactly where the next starts, in one pass from the front.
fn merge_free_blocks(list: &mut Vec<FreeBlock>)
    requires
        within(old(list)@, usize::MAX as int),
    ensures
        final(list)@ == merge(old(list)@),
{
    if list.len() < 2 {
        return;
    }
    let mut i: usize = 0;
    proof {
        assert(list@.take(0) + merge(list@.skip(0)) =~= merge(list@)) by {
            assert(list@.skip(0) =~= list@);
        }
    }
    while i < list.len() - 1
        invariant
            i < list@.len(),
            within(list@, usize::MAX as int),
            merge(old(list)@) == list@.take(i as int) + merge(list@.skip(i as int)),
        decreases list@.len() - i,
    {
        let current = list[i];
        let next = list[i + 1];
        let ghost before = list@;
        let ghost rest = before.skip(i as int);
        assert(rest[0] == current && rest[1] == next);
        assert(current.end() <= usize::MAX && next.end() <= usize::MAX);
        if current.offset + current.size == next.offset {
            let joined = FreeBlock { offset: current.offset, size: current.size + next.size };
            list[i] = joined;
            list.remove(i + 1);
            proof {
                assert(list@.take(i as int) =~= before.take(i as int));
                assert(joined == join(current, next));
                assert(list@.skip(i as int) =~= seq![joined] + rest.skip(2));
                assert forall|k: int| 0 <= k < list@.len() implies (#[trigger] list@[k]).end()
                    <= usize::MAX by {
                    if k < i {
                        assert(list@[k] == before[k]);
                    } else if k > i {
                        assert(list@[k] == before[k + 1]);
                    }
                }
            }
        } else {
            proof {
                assert(before.skip(i + 1) =~= rest.drop_first());
                assert(before.take(i + 1) =~= before.take(i as int) + seq![rest[0]]);
                assert(before.take(i as int) + (seq![rest[0]] + merge(rest.drop_first()))
                    =~= before.take(i + 1) + merge(before.skip(i + 1)));
            }
            i = i + 1;
        }
    }
    proof {
        assert(list@.skip(i as int).len() == 1);
        assert(list@.take(i as int) + list@.skip(i as int) =~= list@);
    }
}

/// Gives a block back to the list.
pub fn insert_free_block(list: &mut Vec<FreeBlock>, block: FreeBlock)
    requires
        within(old(list)@, usize::MAX as int),
        block.end() <= usize::MAX,
    ensures
        final(list)@ == place(old(list)@, block),
{
    let pos = search(list, block.offset);
    let ghost before = list@;
    list.insert(pos, block);
    proof {
        assert forall|i: int| 0 <= i < list@.len() implies (#[trigger] list@[i]).end()
            <= usize::MAX by {
            if i < pos {
                assert(before[i].end() <= usize::MAX);
            } else if i > pos {
                assert(before[i - 1].end() <= usize::MAX);
            }
        }
    }
    merge_free_blocks(list);
}

/// The bytes of all blocks, summed.
pub fn free_bytes(list: &Vec<FreeBlock>) -> (r: usize)
    requires
        total_size(list@) <= usize::MAX,
    ensures
        r == total_size(list@),
{
    let mut sum: usize = 0;
    let mut i: usize = 0;
    proof {
        assert(list@.take(0) =~= Seq::<FreeBlock>::empty());
    }
    while i < list.len()
        invariant
            total_size(list@) <= usize::MAX,
            i <= list@.len(),
            sum == total_size(list@.take(i as int)),
        decreases list@.len() - i,
    {
        proof {
            let t = list@.take(i + 1);
            let rest = list@.skip(i + 1);
            assert(t.drop_last() =~= list@.take(i as int));
            assert(t.last() == list@[i as int]);
            assert(t + rest =~= list@);
            lemma_total_size_add(t, rest);
            lemma_total_size_nonnegative(rest);
        }
        sum = sum + list[i].size;
        i = i + 1;
    }
    proof {
        assert(list@.take(list@.len() as int) =~= list@);
    }
    sum
}

/// Takes `size` bytes from the first block that is large enough, and returns their offset.
pub fn take_first_fit(list: &mut Vec<FreeBlock>, size: usize) -> (r: Option<usize>)
    requires
        within(old(list)@, usize::MAX as int),
    ensures
        ({
            let i = fit_index(old(list)@, size as int);
            if i < old(list)@.len() {
                &&& r == Some(old(list)@[i].offset)
                &&& final(list)@ == carve(old(list)@, i, size as int)
            } else {
                &&& r is None
                &&& final(list)@ == old(list)@
            }
        }),
{
    let mut idx: usize = 0;
    proof {
        assert(list@.skip(0) =~= list@);
    }
    while idx < list.len()
        invariant
            idx <= list@.len(),
            list@ == old(list)@,
            within(list@, usize::MAX as int),
            fit_index(list@, size as int) == idx + fit_index(list@.skip(idx as int), size as int),
        decreases list@.len() - idx,
    {
        let block = list[idx];
        assert(list@.skip(idx as int)[0] == block);
        if block.size >= size {
            assert(block.end() <= usize::MAX);
            if block.size == size {
                list.remove(idx);
            } else {
                list[idx] = FreeBlock { offset: block.offset + size, size: block.size - size };
            }
            return Some(block.offset);
        }
        proof {
            assert(list@.skip(idx as int).drop_first() =~= list@.skip(idx + 1));
        }
        idx = idx + 1;
    }
    None
}

/// Blocks with gaps between them hold no more bytes than lie before the end of the last one.
pub proof fn lemma_total_size_bound(s: Seq<FreeBlock>)
    requires
        separated(s),
    ensures
        0 <= total_size(s),
        s.len() > 0 ==> total_size(s) <= s.last().end() - s[0].offset,
        s.len() > 1 ==> total_size(s) < s.last().end() - s[0].offset,
    decreases s.len(),
{
    if s.len() > 0 {
        let t = s.drop_last();
        assert(separated(t)) by {
            assert forall|a: int, b: int| 0 <= a < b < t.len() implies (#[trigger] t[a]).end() < (
            #[trigger] t[b]).offset by {
                assert(s[a].end() < s[b].offset);
            }
        }
        lemma_total_size_bound(t);
        if t.len() > 0 {
            assert(s[t.len() - 1].end() < s[s.len() - 1].offset);
        }
    }
}

/// No list has fewer than zero bytes.
pub proof fn lemma_total_size_nonnegative(s: Seq<FreeBlock>)
    ensures
        total_size(s) >= 0,
    decreases s.len(),
{
    if s.len() > 0 {
        lemma_total_size_nonnegative(s.drop_last());
    }
}

/// The size of two lists in a row is the sum of their sizes.
pub proof fn lemma_total_size_add(a: Seq<FreeBlock>, b: Seq<FreeBlock>)
    ensures
        total_size(a + b) == total_size(a) + total_size(b),
    decreases b.len(),
{
    if b.len() == 0 {
        assert(a + b =~= a);
    } else {
        assert((a + b).drop_last() =~= a + b.drop_last());
        lemma_total_size_add(a, b.drop_last());
    }
}

proof fn lemma_total_size_one(b: FreeBlock)
    ensures
        total_size(seq![b]) == b.size,
{
    reveal_with_fuel(total_size, 2);
    assert(seq![b].drop_last() =~= Seq::<FreeBlock>::empty());
}

/// What is left to merge after the first two blocks were looked at.
spec fn merge_rest(s: Seq<FreeBlock>) -> Seq<FreeBlock> {
    if s[0].end() == s[1].offset {
        seq![join(s[0], s[1])] + s.skip(2)
    } else {
        s.drop_first()
    }
}

proof fn lemma_merge_rest(s: Seq<FreeBlock>, limit: int)
    requires
        s.len() >= 2,
        within(s, limit),
        limit <= usize::MAX,
    ensures
        within(merge_rest(s), limit),
        merge_rest(s).len() == s.len() - 1,
        forall|i: int| 1 <= i < s.len() - 1 ==> (#[trigger] merge_rest(s)[i]) == s[i + 1],
        merge_rest(s)[0] == if s[0].end() == s[1].offset { join(s[0], s[1]) } else { s[1] },
        s[0].end() == s[1].offset ==> join(s[0], s[1]).size == s[0].size + s[1].size,
{
    let t = merge_rest(s);
    assert(s[0].end() <= limit && s[1].end() <= limit);
    assert forall|i: int| 0 <= i < t.len() implies (#[trigger] t[i]).end() <= limit by {
        if i > 0 {
            assert(t[i] == s[i + 1]);
        }
    }
}

/// What merging yields ends no later than what was merged.
proof fn lemma_merge_within(s: Seq<FreeBlock>, limit: int)
    requires
        within(s, limit),
        limit <= usize::MAX,
    ensures
        within(merge(s), limit),
    decreases s.len(),
{
    if s.len() >= 2 {
        lemma_merge_rest(s, limit);
        lemma_merge_within(merge_rest(s), limit);
        assert(s[0].end() <= limit);
    }
}

/// Merging makes no block smaller: each one is kept, or becomes part of a larger one.
proof fn lemma_merge_keeps_size(s: Seq<FreeBlock>, k: int) -> (r: int)
    requires
        within(s, usize::MAX as int),
        0 <= k < s.len(),
    ensures
        0 <= r < merge(s).len(),
        merge(s)[r].size >= s[k].size,
    decreases s.len(),
{
    if s.len() < 2 {
        k
    } else {
        lemma_merge_rest(s, usize::MAX as int);
        let t = merge_rest(s);
        if s[0].end() == s[1].offset {
            lemma_merge_keeps_size(t, if k < 2 { 0 } else { k - 1 })
        } else if k == 0 {
            0
        } else {
            1 + lemma_merge_keeps_size(t, k - 1)
        }
    }
}

/// Merging keeps the number of bytes.
proof fn lemma_merge_total_size(s: Seq<FreeBlock>)
    requires
        within(s, usize::MAX as int),
    ensures
        total_size(merge(s)) == total_size(s),
    decreases s.len(),
{
    if s.len() >= 2 {
        lemma_merge_rest(s, usize::MAX as int);
        let t = merge_rest(s);
        lemma_merge_total_size(t);
        lemma_total_size_one(s[0]);
        if s[0].end() == s[1].offset {
            assert(s =~= seq![s[0]] + seq![s[1]] + s.skip(2));
            lemma_total_size_one(s[1]);
            lemma_total_size_one(join(s[0], s[1]));
            lemma_total_size_add(seq![s[0]], seq![s[1]]);
            lemma_total_size_add(seq![s[0]] + seq![s[1]], s.skip(2));
            lemma_total_size_add(seq![join(s[0], s[1])], s.skip(2));
        } else {
            assert(s =~= seq![s[0]] + t);
            lemma_total_size_add(seq![s[0]], t);
            lemma_total_size_add(seq![s[0]], merge(t));
        }
    }
}

/// Merging keeps the bytes that are covered.
proof fn lemma_merge_covers(s: Seq<FreeBlock>, p: int)
    requires
        within(s, usize::MAX as int),
    ensures
        covered(merge(s), p) <==> covered(s, p),
    decreases s.len(),
{
    if s.len() >= 2 {
        lemma_merge_rest(s, usize::MAX as int);
        let t = merge_rest(s);
        lemma_merge_covers(t, p);
        if s[0].end() == s[1].offset {
            assert(s =~= seq![s[0]] + (seq![s[1]] + s.skip(2)));
            lemma_covered_cons(s[0], seq![s[1]] + s.skip(2), p);
            lemma_covered_cons(s[1], s.skip(2), p);
            lemma_covered_cons(join(s[0], s[1]), s.skip(2), p);
        } else {
            assert(s =~= seq![s[0]] + t);
            lemma_covered_cons(s[0], t, p);
            lemma_covered_cons(s[0], merge(t), p);
        }
    }
}

proof fn lemma_apart_by_bytes(a: FreeBlock, b: FreeBlock)
    requires
        forall|p: int| !(#[trigger] a.covers(p) && b.covers(p)),
    ensures
        a.apart_from(b),
{
    if !a.apart_from(b) {
        let p = if a.offset >= b.offset { a.offset as int } else { b.offset as int };
        assert(a.covers(p) && b.covers(p));
    }
}

/// A block that shares no byte with the list shares none with what merging yields.
proof fn lemma_merge_keeps_apart(s: Seq<FreeBlock>, a: FreeBlock)
    requires
        within(s, usize::MAX as int),
        forall|j: int| 0 <= j < s.len() ==> a.apart_from(#[trigger] s[j]),
    ensures
        forall|j: int| 0 <= j < merge(s).len() ==> a.apart_from(#[trigger] merge(s)[j]),
{
    let t = merge(s);
    assert forall|j: int| 0 <= j < t.len() implies a.apart_from(#[trigger] t[j]) by {
        assert forall|p: int| !(#[trigger] a.covers(p) && t[j].covers(p)) by {
            if a.covers(p) && t[j].covers(p) {
                assert(covered(t, p));
                lemma_merge_covers(s, p);
                let k = choose|k: int| 0 <= k < s.len() && (#[trigger] s[k]).covers(p);
                assert(a.apart_from(s[k]));
            }
        }
        lemma_apart_by_bytes(a, t[j]);
    }
}

/// Merging blocks that share no byte yields blocks that share none.
proof fn lemma_merge_disjoint(s: Seq<FreeBlock>)
    requires
        within(s, usize::MAX as int),
        disjoint(s),
    ensures
        disjoint(merge(s)),
    decreases s.len(),
{
    if s.len() >= 2 {
        lemma_merge_rest(s, usize::MAX as int);
        let t = merge_rest(s);
        assert forall|i: int, j: int| 0 <= i < j < t.len() implies (#[trigger] t[i]).apart_from(
            #[trigger] t[j],
        ) by {
            assert(t[j] == s[j + 1]);
            assert(s[i + 1].apart_from(s[j + 1]));
            assert(s[0].apart_from(s[j + 1]));
        }
        lemma_merge_disjoint(t);
        if s[0].end() != s[1].offset {
            assert forall|j: int| 0 <= j < t.len() implies s[0].apart_from(#[trigger] t[j]) by {
                assert(t[j] == s[j + 1]);
                assert(s[0].apart_from(s[j + 1]));
            }
            lemma_merge_keeps_apart(t, s[0]);
            let r = merge(t);
            let all = seq![s[0]] + r;
            assert forall|i: int, j: int| 0 <= i < j < all.len() implies (
            #[trigger] all[i]).apart_from(#[trigger] all[j]) by {
                assert(all[j] == r[j - 1]);
                if i > 0 {
                    assert(all[i] == r[i - 1]);
                }
            }
        }
    }
}

/// Merging blocks that are aligned yields blocks that are.
proof fn lemma_merge_aligned(s: Seq<FreeBlock>)
    requires
        within(s, usize::MAX as int),
        aligned(s),
    ensures
        aligned(merge(s)),
    decreases s.len(),
{
    if s.len() >= 2 {
        lemma_merge_rest(s, usize::MAX as int);
        let t = merge_rest(s);
        assert(s[0].offset as int % 64 == 0 && s[0].size as int % 64 == 0);
        assert(s[1].offset as int % 64 == 0 && s[1].size as int % 64 == 0);
        assert forall|i: int| 0 <= i < t.len() implies (#[trigger] t[i]).offset as int % 64 == 0
            && t[i].size as int % 64 == 0 by {
            if i > 0 {
                assert(t[i] == s[i + 1]);
            }
        }
        lemma_merge_aligned(t);
    }
}

/// Merging blocks that follow one another leaves gaps between all of them, and none empty that
/// was not.
proof fn lemma_merge_separates(s: Seq<FreeBlock>)
    requires
        within(s, usize::MAX as int),
        forall|i: int, j: int|
            0 <= i < j < s.len() ==> (#[trigger] s[i]).end() <= (#[trigger] s[j]).offset,
    ensures
        separated(merge(s)),
        solid(s) ==> solid(merge(s)),
        s.len() > 0 ==> merge(s).len() > 0 && merge(s)[0].offset == s[0].offset,
    decreases s.len(),
{
    if s.len() >= 2 {
        lemma_merge_rest(s, usize::MAX as int);
        let t = merge_rest(s);
        assert forall|i: int, j: int| 0 <= i < j < t.len() implies (#[trigger] t[i]).end() <= (
        #[trigger] t[j]).offset by {
            assert(t[j] == s[j + 1]);
            assert(s[i + 1].end() <= s[j + 1].offset);
        }
        lemma_merge_separates(t);
        assert(solid(s) ==> solid(t)) by {
            if solid(s) {
                assert(s[0].size > 0 && s[1].size > 0);
                assert forall|i: int| 0 <= i < t.len() implies (#[trigger] t[i]).size > 0 by {
                    if i > 0 {
                        assert(t[i] == s[i + 1]);
                    }
                }
            }
        }
        if s[0].end() != s[1].offset {
            assert(s[0].end() <= s[1].offset);
            let r = merge(t);
            let all = seq![s[0]] + r;
            assert forall|i: int, j: int| 0 <= i < j < all.len() implies (
            #[trigger] all[i]).end() < (#[trigger] all[j]).offset by {
                assert(all[j] == r[j - 1]);
                if i > 0 {
                    assert(all[i] == r[i - 1]);
                } else if j > 1 {
                    assert(r[0].end() < r[j - 1].offset);
                }
            }
            assert(solid(s) ==> solid(all)) by {
                if solid(s) {
                    assert forall|i: int| 0 <= i < all.len() implies (
                    #[trigger] all[i]).size > 0 by {
                        if i > 0 {
                            assert(all[i] == r[i - 1]);
                        } else {
                            assert(s[0].size > 0);
                        }
                    }
                }
            }
        }
    }
}

proof fn lemma_position(s: Seq<FreeBlock>, offset: usize)
    ensures
        0 <= position(s, offset) <= s.len(),
        forall|i: int| 0 <= i < position(s, offset) ==> (#[trigger] s[i]).offset < offset,
        position(s, offset) < s.len() ==> s[position(s, offset)].offset >= offset,
    decreases s.len(),
{
    if s.len() > 0 && s[0].offset < offset {
        let rest = s.drop_first();
        lemma_position(rest, offset);
        assert forall|i: int| 0 <= i < position(s, offset) implies (#[trigger] s[i]).offset
            < offset by {
            if i > 0 {
                assert(rest[i - 1].offset < offset);
            }
        }
    }
}

/// The list with a block put in has that block and the others, in their order.
proof fn lemma_inserted(s: Seq<FreeBlock>, b: FreeBlock, limit: int) -> (t: Seq<FreeBlock>)
    requires
        within(s, limit),
        b.end() <= limit,
    ensures
        t == s.insert(position(s, b.offset), b),
        t.len() == s.len() + 1,
        0 <= position(s, b.offset) <= s.len(),
        forall|i: int|
            0 <= i < t.len() ==> #[trigger] t[i] == (if i < position(s, b.offset) {
                s[i]
            } else if i == position(s, b.offset) {
                b
            } else {
                s[i - 1]
            }),
        within(t, limit),
{
    lemma_position(s, b.offset);
    let t = s.insert(position(s, b.offset), b);
    assert forall|i: int| 0 <= i < t.len() implies (#[trigger] t[i]).end() <= limit by {
        let pos = position(s, b.offset);
        if i < pos {
            assert(t[i] == s[i]);
        } else if i > pos {
            assert(t[i] == s[i - 1]);
        }
    }
    t
}

/// The list after a block was given back stays within bounds.
pub proof fn lemma_place_within(s: Seq<FreeBlock>, b: FreeBlock, limit: int)
    requires
        within(s, limit),
        b.end() <= limit,
        limit <= usize::MAX,
    ensures
        within(place(s, b), limit),
{
    let t = lemma_inserted(s, b, limit);
    lemma_merge_within(t, limit);
}

/// A block that was given back is in the list, or part of a larger one.
pub proof fn lemma_place_keeps_size(s: Seq<FreeBlock>, b: FreeBlock) -> (k: int)
    requires
        within(s, usize::MAX as int),
        b.end() <= usize::MAX,
    ensures
        0 <= k < place(s, b).len(),
        place(s, b)[k].size >= b.size,
{
    let t = lemma_inserted(s, b, usize::MAX as int);
    assert(t[position(s, b.offset)] == b);
    lemma_merge_keeps_size(t, position(s, b.offset))
}

/// Giving a block back adds its size.
pub proof fn lemma_place_total_size(s: Seq<FreeBlock>, b: FreeBlock)
    requires
        within(s, usize::MAX as int),
        b.end() <= usize::MAX,
    ensures
        total_size(place(s, b)) == total_size(s) + b.size,
{
    let t = lemma_inserted(s, b, usize::MAX as int);
    lemma_merge_total_size(t);
    let pos = position(s, b.offset);
    let head = s.take(pos);
    let tail = s.skip(pos);
    assert(s =~= head + tail);
    assert(t =~= head + seq![b] + tail);
    lemma_total_size_one(b);
    lemma_total_size_add(head, tail);
    lemma_total_size_add(head, seq![b]);
    lemma_total_size_add(head + seq![b], tail);
}

/// A byte is in the list after a block was given back exactly when it was in the list or is in
/// the block.
pub proof fn lemma_place_covers(s: Seq<FreeBlock>, b: FreeBlock, p: int)
    requires
        within(s, usize::MAX as int),
        b.end() <= usize::MAX,
    ensures
        covered(place(s, b), p) <==> covered(s, p) || b.covers(p),
{
    let t = lemma_inserted(s, b, usize::MAX as int);
    let pos = position(s, b.offset);
    lemma_merge_covers(t, p);
    if covered(t, p) {
        let i = choose|i: int| 0 <= i < t.len() && (#[trigger] t[i]).covers(p);
        if i < pos {
            assert(s[i].covers(p));
        } else if i > pos {
            assert(s[i - 1].covers(p));
        }
    }
    if covered(s, p) {
        let i = choose|i: int| 0 <= i < s.len() && (#[trigger] s[i]).covers(p);
        if i < pos {
            assert(t[i].covers(p));
        } else {
            assert(t[i + 1].covers(p));
        }
    }
    if b.covers(p) {
        assert(t[pos].covers(p));
    }
}

/// A block that shares no byte with the list nor with the block that is given back shares none
/// with the list afterwards.
pub proof fn lemma_place_keeps_apart(s: Seq<FreeBlock>, b: FreeBlock, a: FreeBlock)
    requires
        within(s, usize::MAX as int),
        b.end() <= usize::MAX,
        a.apart_from(b),
        forall|j: int| 0 <= j < s.len() ==> a.apart_from(#[trigger] s[j]),
    ensures
        forall|j: int| 0 <= j < place(s, b).len() ==> a.apart_from(#[trigger] place(s, b)[j]),
{
    let t = lemma_inserted(s, b, usize::MAX as int);
    assert forall|j: int| 0 <= j < t.len() implies a.apart_from(#[trigger] t[j]) by {
        assert(t[j] == b || exists|k: int| 0 <= k < s.len() && t[j] == #[trigger] s[k]);
    }
    lemma_merge_keeps_apart(t, a);
}

/// Giving back a block that shares no byte with the list leaves no byte in two blocks.
pub proof fn lemma_place_disjoint(s: Seq<FreeBlock>, b: FreeBlock)
    requires
        within(s, usize::MAX as int),
        disjoint(s),
        b.end() <= usize::MAX,
        forall|i: int| 0 <= i < s.len() ==> b.apart_from(#[trigger] s[i]),
    ensures
        disjoint(place(s, b)),
{
    let t = lemma_inserted(s, b, usize::MAX as int);
    let pos = position(s, b.offset);
    assert forall|i: int, j: int| 0 <= i < j < t.len() implies (#[trigger] t[i]).apart_from(
        #[trigger] t[j],
    ) by {
        let i0 = if i < pos { i } else { i - 1 };
        let j0 = if j < pos { j } else { j - 1 };
        if i != pos && j != pos {
            assert(s[i0].apart_from(s[j0]));
        } else if i == pos {
            assert(b.apart_from(s[j0]));
        } else {
            assert(b.apart_from(s[i0]));
        }
    }
    lemma_merge_disjoint(t);
}

/// Giving back a block that shares no byte with a list that has gaps between its blocks leaves
/// gaps between them. None of them is empty, if none was and the block is not.
pub proof fn lemma_place_separated(s: Seq<FreeBlock>, b: FreeBlock)
    requires
        within(s, usize::MAX as int),
        separated(s),
        solid(s),
        b.end() <= usize::MAX,
        b.size > 0,
        forall|i: int| 0 <= i < s.len() ==> b.apart_from(#[trigger] s[i]),
    ensures
        separated(place(s, b)),
        solid(place(s, b)),
{
    let t = lemma_inserted(s, b, usize::MAX as int);
    let pos = position(s, b.offset);
    lemma_position(s, b.offset);
    assert forall|i: int| 0 <= i < pos implies (#[trigger] s[i]).end() <= b.offset by {
        assert(b.apart_from(s[i]) && s[i].offset < b.offset);
    }
    assert forall|i: int| pos <= i < s.len() implies b.end() <= (#[trigger] s[i]).offset by {
        assert(b.apart_from(s[i]) && s[i].size > 0);
        if i > pos {
            assert(s[pos].end() < s[i].offset);
        }
    }
    assert forall|i: int, j: int| 0 <= i < j < t.len() implies (#[trigger] t[i]).end() <= (
    #[trigger] t[j]).offset by {
        let i0 = if i < pos { i } else { i - 1 };
        let j0 = if j < pos { j } else { j - 1 };
        if i != pos && j != pos {
            assert(s[i0].end() < s[j0].offset);
        } else if i == pos {
            assert(b.end() <= s[j0].offset);
        } else {
            assert(s[i0].end() <= b.offset);
        }
    }
    assert forall|i: int| 0 <= i < t.len() implies (#[trigger] t[i]).size > 0 by {
        let i0 = if i < pos { i } else { i - 1 };
        if i != pos {
            assert(s[i0].size > 0);
        }
    }
    lemma_merge_separates(t);
}

/// Giving back a block that is aligned keeps the list aligned.
pub proof fn lemma_place_aligned(s: Seq<FreeBlock>, b: FreeBlock)
    requires
        within(s, usize::MAX as int),
        aligned(s),
        b.end() <= usize::MAX,
        b.offset as int % 64 == 0,
        b.size as int % 64 == 0,
    ensures
        aligned(place(s, b)),
{
    let t = lemma_inserted(s, b, usize::MAX as int);
    let pos = position(s, b.offset);
    assert forall|i: int| 0 <= i < t.len() implies (#[trigger] t[i]).offset as int % 64 == 0
        && t[i].size as int % 64 == 0 by {
        let i0 = if i < pos { i } else { i - 1 };
        if i != pos {
            assert(s[i0].offset as int % 64 == 0);
        }
    }
    lemma_merge_aligned(t);
}

proof fn lemma_covered_cons(a: FreeBlock, s: Seq<FreeBlock>, p: int)
    ensures
        covered(seq![a] + s, p) <==> a.covers(p) || covered(s, p),
{
    let t = seq![a] + s;
    if covered(t, p) {
        let i = choose|i: int| 0 <= i < t.len() && (#[trigger] t[i]).covers(p);
        if i > 0 {
            assert(s[i - 1].covers(p));
        }
    }
    if a.covers(p) {
        assert(t[0].covers(p));
    }
    if covered(s, p) {
        let i = choose|i: int| 0 <= i < s.len() && (#[trigger] s[i]).covers(p);
        assert(t[i + 1].covers(p));
    }
}

/// [`fit_index`] names the first block that is large enough.
pub proof fn lemma_fit_index(s: Seq<FreeBlock>, size: int)
    ensures
        0 <= fit_index(s, size) <= s.len(),
        fit_index(s, size) < s.len() ==> s[fit_index(s, size)].size >= size,
        forall|i: int| 0 <= i < fit_index(s, size) ==> (#[trigger] s[i]).size < size,
    decreases s.len(),
{
    if s.len() > 0 && s[0].size < size {
        let s1 = s.drop_first();
        lemma_fit_index(s1, size);
        assert forall|i: int| 0 <= i < fit_index(s, size) implies (#[trigger] s[i]).size < size by {
            if i > 0 {
                assert(s1[i - 1].size < size);
            }
        }
    }
}

/// What a cut leaves: each block as it was, or the rest of the one that was cut.
proof fn lemma_carved(s: Seq<FreeBlock>, i: int, size: int)
    requires
        within(s, usize::MAX as int),
        0 <= i < s.len(),
        0 <= size <= s[i].size,
    ensures
        carve(s, i, size).len() == if s[i].size == size { s.len() - 1 } else { s.len() as int },
        forall|a: int|
            0 <= a < carve(s, i, size).len() ==> ({
                let r = #[trigger] carve(s, i, size)[a];
                let k = if s[i].size == size && a >= i { a + 1 } else { a };
                &&& r.end() == s[k].end()
                &&& if k == i {
                    r.offset == s[i].offset + size && r.size == s[i].size - size && r.size > 0
                } else {
                    r == s[k]
                }
            }),
{
    assert(s[i].end() <= usize::MAX);
}

/// Cutting bytes from a block keeps the list within bounds.
pub proof fn lemma_carve_within(s: Seq<FreeBlock>, i: int, size: int, limit: int)
    requires
        within(s, limit),
        limit <= usize::MAX,
        0 <= i < s.len(),
        0 <= size <= s[i].size,
    ensures
        within(carve(s, i, size), limit),
{
    lemma_carved(s, i, size);
    let r = carve(s, i, size);
    assert forall|a: int| 0 <= a < r.len() implies (#[trigger] r[a]).end() <= limit by {
        let k = if s[i].size == size && a >= i { a + 1 } else { a };
        assert(s[k].end() <= limit);
    }
}

/// Cutting bytes from a block keeps the gaps between the blocks, and leaves none empty that was
/// not.
pub proof fn lemma_carve_separated(s: Seq<FreeBlock>, i: int, size: int)
    requires
        within(s, usize::MAX as int),
        separated(s),
        solid(s),
        0 <= i < s.len(),
        0 <= size <= s[i].size,
    ensures
        separated(carve(s, i, size)),
        solid(carve(s, i, size)),
{
    lemma_carved(s, i, size);
    let r = carve(s, i, size);
    assert forall|a: int, b: int| 0 <= a < b < r.len() implies (#[trigger] r[a]).end() < (
    #[trigger] r[b]).offset by {
        let a1 = if s[i].size == size && a >= i { a + 1 } else { a };
        let b1 = if s[i].size == size && b >= i { b + 1 } else { b };
        assert(s[a1].end() < s[b1].offset);
    }
    assert forall|a: int| 0 <= a < r.len() implies (#[trigger] r[a]).size > 0 by {
        let k = if s[i].size == size && a >= i { a + 1 } else { a };
        assert(s[k].size > 0);
    }
}

/// After a cut no byte lies in two blocks, nor in a block and the bytes cut off.
pub proof fn lemma_carve_disjoint(s: Seq<FreeBlock>, i: int, size: int)
    requires
        within(s, usize::MAX as int),
        disjoint(s),
        0 <= i < s.len(),
        0 <= size <= s[i].size,
    ensures
        disjoint(carve(s, i, size)),
        forall|a: int|
            0 <= a < carve(s, i, size).len() ==> (FreeBlock {
                offset: s[i].offset,
                size: size as usize,
            }).apart_from(#[trigger] carve(s, i, size)[a]),
{
    lemma_carved(s, i, size);
    let r = carve(s, i, size);
    let b = FreeBlock { offset: s[i].offset, size: size as usize };
    assert forall|a: int, c: int| 0 <= a < c < r.len() implies (#[trigger] r[a]).apart_from(
        #[trigger] r[c],
    ) by {
        let a1 = if s[i].size == size && a >= i { a + 1 } else { a };
        let c1 = if s[i].size == size && c >= i { c + 1 } else { c };
        assert(s[a1].apart_from(s[c1]));
    }
    assert forall|a: int| 0 <= a < r.len() implies b.apart_from(#[trigger] r[a]) by {
        let k = if s[i].size == size && a >= i { a + 1 } else { a };
        if k < i {
            assert(s[k].apart_from(s[i]));
        } else if k > i {
            assert(s[i].apart_from(s[k]));
        }
    }
}

/// Cutting `size` bytes from a block takes `size` bytes from the total.
pub proof fn lemma_carve_total_size(s: Seq<FreeBlock>, i: int, size: int)
    requires
        within(s, usize::MAX as int),
        0 <= i < s.len(),
        0 <= size <= s[i].size,
    ensures
        total_size(carve(s, i, size)) == total_size(s) - size,
{
    let head = s.take(i);
    let tail = s.skip(i + 1);
    let r = carve(s, i, size);
    assert(s =~= head + seq![s[i]] + tail);
    lemma_total_size_one(s[i]);
    lemma_total_size_add(head, seq![s[i]]);
    lemma_total_size_add(head + seq![s[i]], tail);
    assert(s[i].end() <= usize::MAX);
    if s[i].size == size {
        assert(r =~= head + tail);
        lemma_total_size_add(head, tail);
    } else {
        assert(r =~= head + seq![r[i]] + tail);
        lemma_total_size_one(r[i]);
        lemma_total_size_add(head, seq![r[i]]);
        lemma_total_size_add(head + seq![r[i]], tail);
    }
}

/// Cutting a multiple of 64 bytes from a block keeps the list aligned.
pub proof fn lemma_carve_keeps_aligned(s: Seq<FreeBlock>, i: int, size: int)
    requires
        within(s, usize::MAX as int),
        aligned(s),
        0 <= i < s.len(),
        0 <= size <= s[i].size,
        size % 64 == 0,
    ensures
        aligned(carve(s, i, size)),
{
    let r = carve(s, i, size);
    assert(s[i].end() <= usize::MAX);
    assert forall|a: int| 0 <= a < r.len() implies (#[trigger] r[a]).offset as int % 64 == 0
        && r[a].size as int % 64 == 0 by {
        if s[i].size == size {
            let b = if a < i { a } else { a + 1 };
            assert(s[b].offset as int % 64 == 0);
        } else {
            assert(s[a].offset as int % 64 == 0);
        }
    }
}

} // verus!
