//! The content of the store as a mathematical value, the rules that it
//! keeps, and what follows from them.

use crate::data::{
    block_row_of, validator_row_of, BlockInfo, BlockRowView, PeerInfoView, ValidatorInfo,
    ValidatorRowView,
};
use vstd::prelude::*;

verus! {

/// The content of the three tables. The rows of `blocks` stand in ascending
/// order of height, those of the other two in the order they were stored.
pub struct Tables {
    pub blocks: Seq<BlockRowView>,
    pub validators: Seq<ValidatorRowView>,
    pub peers: Seq<PeerInfoView>,
}

/// The rows that are stored for a batch of block records.
pub open spec fn block_rows_of(batch: Seq<BlockInfo>) -> Seq<BlockRowView> {
    Seq::new(batch.len(), |i: int| block_row_of(batch[i]@))
}

/// The rows that are stored for a batch of validator records.
pub open spec fn validator_rows_of(batch: Seq<ValidatorInfo>) -> Seq<ValidatorRowView> {
    Seq::new(batch.len(), |i: int| validator_row_of(batch[i]@))
}

/// Each row has a greater height than the rows before it.
pub open spec fn heights_ascend(rows: Seq<BlockRowView>) -> bool {
    forall|i: int, j: int| 0 <= i < j < rows.len() ==> rows[i].block_height < rows[j].block_height
}

/// Some row of `rows` has the height `height`.
pub open spec fn has_block(rows: Seq<BlockRowView>, height: int) -> bool {
    exists|i: int| 0 <= i < rows.len() && (#[trigger] rows[i]).block_height == height
}

/// No two rows of `rows` have the same height.
pub open spec fn heights_distinct(rows: Seq<BlockRowView>) -> bool {
    forall|i: int, j: int| 0 <= i < j < rows.len() ==> rows[i].block_height != rows[j].block_height
}

/// Storing `batch` in a table that holds `table` would break the rule of
/// one row per height: two rows of the batch share a height, or a row of
/// the batch has the height of a stored row.
pub open spec fn blocks_conflict(table: Seq<BlockRowView>, batch: Seq<BlockRowView>) -> bool {
    ||| !heights_distinct(batch)
    ||| exists|i: int| 0 <= i < batch.len() && has_block(table, (#[trigger] batch[i]).block_height)
}

/// Two validator rows with the same key: height and address.
pub open spec fn same_validator(a: ValidatorRowView, b: ValidatorRowView) -> bool {
    a.block_height == b.block_height && a.address == b.address
}

/// Some row of `rows` has the key of `row`.
pub open spec fn has_validator(rows: Seq<ValidatorRowView>, row: ValidatorRowView) -> bool {
    exists|i: int| 0 <= i < rows.len() && same_validator(#[trigger] rows[i], row)
}

/// No two rows of `rows` have the same key.
pub open spec fn validators_distinct(rows: Seq<ValidatorRowView>) -> bool {
    forall|i: int, j: int| 0 <= i < j < rows.len() ==> !same_validator(rows[i], rows[j])
}

/// Storing `batch` in a table that holds `table` would break the rule of
/// one row per height and address.
pub open spec fn validators_conflict(
    table: Seq<ValidatorRowView>,
    batch: Seq<ValidatorRowView>,
) -> bool {
    ||| !validators_distinct(batch)
    ||| exists|i: int| 0 <= i < batch.len() && has_validator(table, #[trigger] batch[i])
}

/// Two peer rows with the same key: height and node.
pub open spec fn same_peer(a: PeerInfoView, b: PeerInfoView) -> bool {
    a.block_height == b.block_height && a.node_id == b.node_id
}

/// Some row of `rows` has the key of `row`.
pub open spec fn has_peer(rows: Seq<PeerInfoView>, row: PeerInfoView) -> bool {
    exists|i: int| 0 <= i < rows.len() && same_peer(#[trigger] rows[i], row)
}

/// No two rows of `rows` have the same key.
pub open spec fn peers_distinct(rows: Seq<PeerInfoView>) -> bool {
    forall|i: int, j: int| 0 <= i < j < rows.len() ==> !same_peer(rows[i], rows[j])
}

/// Storing `batch` in a table that holds `table` would break the rule of
/// one row per height and node.
pub open spec fn peers_conflict(table: Seq<PeerInfoView>, batch: Seq<PeerInfoView>) -> bool {
    ||| !peers_distinct(batch)
    ||| exists|i: int| 0 <= i < batch.len() && has_peer(table, #[trigger] batch[i])
}

impl Tables {
    /// The tables without a row.
    pub open spec fn empty() -> Tables {
        Tables { blocks: Seq::empty(), validators: Seq::empty(), peers: Seq::empty() }
    }

    /// The rules of the tables: the blocks ascend by height, so that no
    /// height occurs twice, and no key occurs twice in the other two.
    pub open spec fn wf(self) -> bool {
        &&& heights_ascend(self.blocks)
        &&& validators_distinct(self.validators)
        &&& peers_distinct(self.peers)
    }
}

/// `after` is what `before` becomes when the rows of `batch` are added to
/// `blocks`: the rules hold, `blocks` has the rows it had and those of
/// `batch` and no other, and the other tables are as they were.
pub open spec fn blocks_added(before: Tables, batch: Seq<BlockRowView>, after: Tables) -> bool {
    &&& after.wf()
    &&& after.validators == before.validators
    &&& after.peers == before.peers
    &&& after.blocks.len() == before.blocks.len() + batch.len()
    &&& forall|row: BlockRowView|
        #![trigger after.blocks.contains(row)]
        #![trigger before.blocks.contains(row)]
        #![trigger batch.contains(row)]
        after.blocks.contains(row) <==> (before.blocks.contains(row) || batch.contains(row))
}

/// `height` is what the store reports as its latest height: 0 for a table
/// without rows, else the greatest height of a row.
pub open spec fn is_latest_height(rows: Seq<BlockRowView>, height: int) -> bool {
    if rows.len() == 0 {
        height == 0
    } else {
        &&& has_block(rows, height)
        &&& forall|i: int| 0 <= i < rows.len() ==> (#[trigger] rows[i]).block_height <= height
    }
}

/// The message of the error that reports a second row for a key.
pub open spec fn duplicate_key_text() -> Seq<char> {
    "duplicate key value violates unique constraint"@
}

/// The message of the error that reports a negative row limit.
pub open spec fn negative_limit_text() -> Seq<char> {
    "LIMIT must not be negative"@
}

/// The heights of the rows of `rows` whose proposer is `proposer_address`,
/// in the order of the rows.
pub open spec fn heights_by_proposer(rows: Seq<BlockRowView>, proposer_address: Seq<char>) -> Seq<
    int,
>
    decreases rows.len(),
{
    if rows.len() == 0 {
        Seq::empty()
    } else {
        let before = heights_by_proposer(rows.drop_last(), proposer_address);
        if rows.last().proposer_address == proposer_address {
            before.push(rows.last().block_height)
        } else {
            before
        }
    }
}

/// The transaction counts of the `limit` rows of greatest height, the
/// greatest height first; of all rows where there are fewer.
pub open spec fn recent_num_txs(rows: Seq<BlockRowView>, limit: int) -> Seq<int> {
    Seq::new(
        if limit <= 0 {
            0nat
        } else if limit < rows.len() {
            limit as nat
        } else {
            rows.len()
        },
        |i: int| rows[rows.len() - 1 - i].num_txs,
    )
}

/// The numbers of a nullable column: 0 stands for a missing value.
pub open spec fn num_txs_of(values: Seq<Option<i64>>) -> Seq<int> {
    Seq::new(
        values.len(),
        |i: int|
            match values[i] {
                Some(value) => value as int,
                None => 0,
            },
    )
}

/// The latest height of a table is one number: two heights that both
/// qualify are the same.
pub proof fn lemma_latest_height_is_unique(rows: Seq<BlockRowView>, first: int, second: int)
    requires
        is_latest_height(rows, first),
        is_latest_height(rows, second),
    ensures
        first == second,
{
    if rows.len() > 0 {
        let i = choose|i: int| 0 <= i < rows.len() && (#[trigger] rows[i]).block_height == first;
        let j = choose|j: int| 0 <= j < rows.len() && (#[trigger] rows[j]).block_height == second;
        assert(rows[i].block_height <= second);
        assert(rows[j].block_height <= first);
    }
}

/// A table of blocks is determined by the rows it holds: two tables that
/// keep the order of heights and hold the same rows are the same table,
/// in whatever order the rows were stored.
pub proof fn lemma_blocks_are_determined(a: Seq<BlockRowView>, b: Seq<BlockRowView>)
    requires
        heights_ascend(a),
        heights_ascend(b),
        forall|row: BlockRowView|
            #![trigger a.contains(row)]
            #![trigger b.contains(row)]
            a.contains(row) <==> b.contains(row),
    ensures
        a == b,
    decreases a.len(),
{
    if a.len() == 0 {
        if b.len() > 0 {
            assert(b.contains(b[0]));
            assert(a.contains(b[0]));
        }
        assert(a =~= b);
    } else {
        assert(a.contains(a.last()));
        assert(b.contains(a.last()));
        let i = choose|i: int| 0 <= i < b.len() && b[i] == a.last();
        assert(b.contains(b.last()));
        assert(a.contains(b.last()));
        let j = choose|j: int| 0 <= j < a.len() && a[j] == b.last();
        assert(i == b.len() - 1) by {
            if i < b.len() - 1 {
                assert(b[i].block_height < b[b.len() - 1].block_height);
                if j < a.len() - 1 {
                    assert(a[j].block_height < a[a.len() - 1].block_height);
                }
            }
        }
        let a1 = a.drop_last();
        let b1 = b.drop_last();
        assert forall|row: BlockRowView| a1.contains(row) <==> b1.contains(row) by {
            if a1.contains(row) {
                let k = choose|k: int| 0 <= k < a1.len() && a1[k] == row;
                assert(a[k] == row);
                assert(a.contains(row));
                let m = choose|m: int| 0 <= m < b.len() && b[m] == row;
                if m == b.len() - 1 {
                    assert(a[k].block_height < a[a.len() - 1].block_height);
                }
                assert(b1[m] == row);
            }
            if b1.contains(row) {
                let k = choose|k: int| 0 <= k < b1.len() && b1[k] == row;
                assert(b[k] == row);
                assert(b.contains(row));
                let m = choose|m: int| 0 <= m < a.len() && a[m] == row;
                if m == a.len() - 1 {
                    assert(b[k].block_height < b[b.len() - 1].block_height);
                }
                assert(a1[m] == row);
            }
        }
        lemma_blocks_are_determined(a1, b1);
        assert(a =~= a1.push(a.last()));
        assert(b =~= b1.push(b.last()));
    }
}

/// The order in which two batches of blocks are stored does not show in
/// the store: both orders end in the same tables, and so in the same
/// latest height.
pub proof fn lemma_store_order_is_irrelevant(
    start: Tables,
    first: Seq<BlockRowView>,
    second: Seq<BlockRowView>,
    after_first: Tables,
    after_both: Tables,
    after_second: Tables,
    after_both_reversed: Tables,
)
    requires
        blocks_added(start, first, after_first),
        blocks_added(after_first, second, after_both),
        blocks_added(start, second, after_second),
        blocks_added(after_second, first, after_both_reversed),
    ensures
        after_both == after_both_reversed,
        forall|height: int|
            is_latest_height(after_both.blocks, height) <==> is_latest_height(
                after_both_reversed.blocks,
                height,
            ),
{
    assert forall|row: BlockRowView|
        after_both.blocks.contains(row) <==> after_both_reversed.blocks.contains(row) by {
        assert(after_first.blocks.contains(row) <==> (start.blocks.contains(row) || first.contains(
            row,
        )));
        assert(after_second.blocks.contains(row) <==> (start.blocks.contains(row)
            || second.contains(row)));
        assert(after_both.blocks.contains(row) <==> (after_first.blocks.contains(row)
            || second.contains(row)));
        assert(after_both_reversed.blocks.contains(row) <==> (after_second.blocks.contains(row)
            || first.contains(row)));
    }
    lemma_blocks_are_determined(after_both.blocks, after_both_reversed.blocks);
}

/// A batch that holds a height of an earlier batch is refused once the
/// earlier one is stored: the store never takes a second row for a height.
pub proof fn lemma_overlapping_batch_conflicts(
    before: Tables,
    first: Seq<BlockRowView>,
    after: Tables,
    second: Seq<BlockRowView>,
    i: int,
    j: int,
)
    requires
        blocks_added(before, first, after),
        0 <= i < first.len(),
        0 <= j < second.len(),
        first[i].block_height == second[j].block_height,
    ensures
        blocks_conflict(after.blocks, second),
        heights_distinct(after.blocks),
{
    assert(first.contains(first[i]));
    assert(after.blocks.contains(first[i]));
    let k = choose|k: int| 0 <= k < after.blocks.len() && after.blocks[k] == first[i];
    assert(after.blocks[k].block_height == second[j].block_height);
    assert(has_block(after.blocks, second[j].block_height));
}

/// Storing a batch of blocks a second time is refused.
pub proof fn lemma_second_insert_conflicts(before: Tables, batch: Seq<BlockRowView>, after: Tables)
    requires
        blocks_added(before, batch, after),
        batch.len() > 0,
    ensures
        blocks_conflict(after.blocks, batch),
{
    lemma_overlapping_batch_conflicts(before, batch, after, batch, 0, 0);
}

/// The latest height never goes down when blocks of the chain are stored:
/// heights of the chain are not negative.
pub proof fn lemma_latest_height_never_decreases(
    before: Tables,
    batch: Seq<BlockRowView>,
    after: Tables,
    earlier: int,
    later: int,
)
    requires
        blocks_added(before, batch, after),
        forall|i: int| 0 <= i < batch.len() ==> (#[trigger] batch[i]).block_height >= 0,
        is_latest_height(before.blocks, earlier),
        is_latest_height(after.blocks, later),
    ensures
        earlier <= later,
{
    if before.blocks.len() > 0 {
        let i = choose|i: int|
            0 <= i < before.blocks.len() && (#[trigger] before.blocks[i]).block_height == earlier;
        assert(before.blocks.contains(before.blocks[i]));
        assert(after.blocks.contains(before.blocks[i]));
        let k = choose|k: int| 0 <= k < after.blocks.len() && after.blocks[k] == before.blocks[i];
        assert(after.blocks[k].block_height <= later);
    } else if after.blocks.len() > 0 {
        let k = choose|k: int|
            0 <= k < after.blocks.len() && (#[trigger] after.blocks[k]).block_height == later;
        assert(after.blocks.contains(after.blocks[k]));
        assert(batch.contains(after.blocks[k]));
        let j = choose|j: int| 0 <= j < batch.len() && batch[j] == after.blocks[k];
        assert(batch[j].block_height >= 0);
    }
}

/// The validator set of a height that has no row yet is accepted, whatever
/// the table of blocks holds, as long as no address occurs twice in it.
pub proof fn lemma_fresh_validator_set_is_accepted(
    table: Seq<ValidatorRowView>,
    batch: Seq<ValidatorRowView>,
    height: int,
)
    requires
        forall|i: int| 0 <= i < table.len() ==> (#[trigger] table[i]).block_height != height,
        forall|i: int| 0 <= i < batch.len() ==> (#[trigger] batch[i]).block_height == height,
        validators_distinct(batch),
    ensures
        !validators_conflict(table, batch),
{
    assert forall|i: int| 0 <= i < batch.len() implies !has_validator(table, #[trigger] batch[i]) by {
        assert forall|k: int| 0 <= k < table.len() implies !same_validator(
            #[trigger] table[k],
            batch[i],
        ) by {}
    }
}

} // verus!
