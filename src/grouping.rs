//! Partition of a validator's sorted slots into short contiguous runs.
use vstd::prelude::*;

verus! {

/// Largest number of slots in one block.
pub const MAX_BLOCK_LEN: usize = 4;

/// Each slot of `b` is one greater than the slot before it.
pub open spec fn is_contiguous(b: Seq<u64>) -> bool {
    forall|j: int| 0 < j < b.len() ==> #[trigger] b[j] == b[j - 1] + 1
}

/// A block: non-empty, contiguous, at most `MAX_BLOCK_LEN` slots.
pub open spec fn is_block(b: Seq<u64>) -> bool {
    &&& 0 < b.len() <= MAX_BLOCK_LEN
    &&& is_contiguous(b)
}

/// The views of a vector of blocks.
pub open spec fn blocks_view(blocks: Seq<Vec<u64>>) -> Seq<Seq<u64>> {
    blocks.map_values(|b: Vec<u64>| b@)
}

/// `blocks` is the greedy grouping of `slots`: concatenated they give back
/// `slots`, each is a block, and a block ends before the next one starts only
/// when it is full or the next slot does not follow the last one.
pub open spec fn is_grouping_of(blocks: Seq<Seq<u64>>, slots: Seq<u64>) -> bool {
    &&& blocks.flatten() == slots
    &&& forall|i: int| 0 <= i < blocks.len() ==> is_block(#[trigger] blocks[i])
    &&& forall|i: int|
        0 <= i < blocks.len() - 1 ==> (#[trigger] blocks[i]).len() == MAX_BLOCK_LEN
            || blocks[i].last() + 1 != blocks[i + 1][0]
}

/// Groups `slots` (ascending) into blocks of at most four consecutive slots.
pub fn group_into_blocks(slots: &Vec<u64>) -> (r: Vec<Vec<u64>>)
    ensures
        is_grouping_of(blocks_view(r@), slots@),
{
    let n = slots.len();
    let mut blocks: Vec<Vec<u64>> = Vec::new();
    let mut block: Vec<u64> = Vec::new();
    let mut i: usize = 0;
    while i < n
        invariant
            n == slots.len(),
            i <= n,
            blocks_view(blocks@).flatten() + block@ == slots@.subrange(0, i as int),
            forall|k: int| 0 <= k < blocks.len() ==> is_block(#[trigger] blocks_view(blocks@)[k]),
            forall|k: int|
                0 <= k < blocks.len() - 1 ==> (#[trigger] blocks_view(blocks@)[k]).len()
                    == MAX_BLOCK_LEN || blocks_view(blocks@)[k].last() + 1 != blocks_view(
                    blocks@,
                )[k + 1][0],
            block.len() < MAX_BLOCK_LEN,
            is_contiguous(block@),
            block.len() > 0 ==> i < n && slots@[i as int] == block@.last() + 1,
            i == n ==> block.len() == 0,
            blocks.len() > 0 && block.len() > 0 ==> (blocks_view(blocks@).last().len()
                == MAX_BLOCK_LEN || blocks_view(blocks@).last().last() + 1 != block@[0]),
            blocks.len() > 0 && block.len() == 0 && i < n ==> (blocks_view(blocks@).last().len()
                == MAX_BLOCK_LEN || blocks_view(blocks@).last().last() + 1 != slots@[i as int]),
        decreases n - i,
    {
        let slot = slots[i];
        block.push(slot);
        // The block ends at the last slot, before a gap, or when it is full.
        let closes = i + 1 == n || slot == u64::MAX || slots[i + 1] != slot + 1 || block.len()
            == MAX_BLOCK_LEN;
        proof {
            assert(slots@.subrange(0, i + 1) == slots@.subrange(0, i as int).push(slot));
        }
        if closes {
            let ghost old_blocks = blocks_view(blocks@);
            blocks.push(block);
            block = Vec::new();
            proof {
                assert(blocks_view(blocks@) == old_blocks.push(blocks_view(blocks@).last()));
                old_blocks.lemma_flatten_push(blocks_view(blocks@).last());
            }
        }
        i = i + 1;
    }
    proof {
        assert(slots@.subrange(0, n as int) == slots@);
    }
    blocks
}

/// Dropping the first block of a grouping leaves a grouping of the slots
/// after it.
proof fn lemma_grouping_rest(a: Seq<Seq<u64>>, slots: Seq<u64>)
    requires
        is_grouping_of(a, slots),
        a.len() > 0,
    ensures
        a[0].len() <= slots.len(),
        a[0] == slots.subrange(0, a[0].len() as int),
        is_grouping_of(a.drop_first(), slots.subrange(a[0].len() as int, slots.len() as int)),
{
    assert(a.flatten() == a[0] + a.drop_first().flatten());
    let k = a[0].len() as int;
    assert(slots.subrange(0, k) =~= a[0]);
    assert(slots.subrange(k, slots.len() as int) =~= a.drop_first().flatten());
    let r = a.drop_first();
    assert forall|i: int| 0 <= i < r.len() implies is_block(#[trigger] r[i]) by {
        assert(r[i] == a[i + 1]);
    }
    assert forall|i: int| 0 <= i < r.len() - 1 implies (#[trigger] r[i]).len() == MAX_BLOCK_LEN
        || r[i].last() + 1 != r[i + 1][0] by {
        assert(r[i] == a[i + 1]);
        assert(r[i + 1] == a[i + 2]);
    }
}

/// The slot right after the first block is the first slot of the second block.
proof fn lemma_grouping_second_start(a: Seq<Seq<u64>>, slots: Seq<u64>)
    requires
        is_grouping_of(a, slots),
        a.len() > 1,
    ensures
        a[0].len() < slots.len(),
        slots[a[0].len() as int] == a[1][0],
{
    lemma_grouping_rest(a, slots);
    let k = a[0].len() as int;
    let rest = slots.subrange(k, slots.len() as int);
    lemma_grouping_rest(a.drop_first(), rest);
    assert(a.drop_first()[0] == a[1]);
    assert(rest[0] == slots[k]);
}

/// A grouping of no slots has no blocks, and one of some slots has some.
proof fn lemma_grouping_empty(a: Seq<Seq<u64>>, slots: Seq<u64>)
    requires
        is_grouping_of(a, slots),
    ensures
        (a.len() == 0) == (slots.len() == 0),
{
    if a.len() > 0 {
        lemma_grouping_rest(a, slots);
        assert(is_block(a[0]));
    }
}

/// The grouping of a list of slots is unique: two blocks lists that both meet
/// `is_grouping_of` for the same slots are equal, so the contract of
/// `group_into_blocks` fixes its result.
pub proof fn lemma_grouping_is_unique(a: Seq<Seq<u64>>, b: Seq<Seq<u64>>, slots: Seq<u64>)
    requires
        is_grouping_of(a, slots),
        is_grouping_of(b, slots),
    ensures
        a == b,
    decreases slots.len(),
{
    lemma_grouping_empty(a, slots);
    lemma_grouping_empty(b, slots);
    if a.len() == 0 {
        assert(a =~= b);
    } else {
        lemma_grouping_rest(a, slots);
        lemma_grouping_rest(b, slots);
        let ka = a[0].len() as int;
        let kb = b[0].len() as int;
        assert(is_block(a[0]) && is_block(b[0]));
        lemma_first_block_not_shorter(a, b, slots);
        lemma_first_block_not_shorter(b, a, slots);
        assert(a[0] == b[0]);
        let rest = slots.subrange(ka, slots.len() as int);
        lemma_grouping_is_unique(a.drop_first(), b.drop_first(), rest);
        assert(a =~= seq![a[0]] + a.drop_first());
        assert(b =~= seq![b[0]] + b.drop_first());
    }
}

/// Of two groupings of the same slots, the first block of the second is no
/// longer than the first block of the first.
proof fn lemma_first_block_not_shorter(a: Seq<Seq<u64>>, b: Seq<Seq<u64>>, slots: Seq<u64>)
    requires
        is_grouping_of(a, slots),
        is_grouping_of(b, slots),
        a.len() > 0,
        b.len() > 0,
    ensures
        b[0].len() <= a[0].len(),
{
    lemma_grouping_rest(a, slots);
    lemma_grouping_rest(b, slots);
    let ka = a[0].len() as int;
    assert(is_block(a[0]) && is_block(b[0]));
    if ka < b[0].len() {
        // `a` goes on with a second block exactly where `b`'s first block goes on.
        if a.len() == 1 {
            lemma_grouping_empty(a.drop_first(), slots.subrange(ka, slots.len() as int));
            assert(slots.len() == ka);
        } else {
            lemma_grouping_second_start(a, slots);
            assert(slots[ka] == b[0][ka]);
            assert(b[0][ka] == b[0][ka - 1] + 1);
            assert(a[0].last() == slots[ka - 1]);
            assert(slots[ka - 1] == b[0][ka - 1]);
            assert(a[0].len() == MAX_BLOCK_LEN || a[0].last() + 1 != a[1][0]);
        }
    }
}

} // verus!
