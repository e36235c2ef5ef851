//! The store: three append-only tables, held in memory, and the rules
//! they keep.
//!
//! `blocks` holds one row per height, `validators` one row per height and
//! address, `peers` one row per height and node. A call that stores a batch
//! either adds every row of the batch or leaves the tables as they were. No
//! row is ever changed or removed.

use crate::chunks::ints_of;
use crate::data::{
    views_of, BlockInfo, BlockRow, BlockRowView, PeerInfo, ValidatorInfo, ValidatorRow,
};
use crate::error::IndexerError;
use crate::tables::{
    blocks_added, blocks_conflict, block_rows_of, duplicate_key_text, has_block, has_peer,
    has_validator, heights_ascend, heights_by_proposer, heights_distinct, is_latest_height,
    negative_limit_text, num_txs_of, peers_conflict, peers_distinct, recent_num_txs, same_peer,
    same_validator, validator_rows_of, validators_conflict, validators_distinct, Tables,
};
use vstd::prelude::*;

verus! {

/// The height that indexing has reached, given the greatest stored height:
/// 0 when nothing is stored.
pub fn checkpoint_of(max_height: Option<i64>) -> (res: i64)
    ensures
        res == match max_height {
            Some(height) => height,
            None => 0,
        },
{
    match max_height {
        Some(height) => height,
        None => 0,
    }
}

fn duplicate_key() -> (res: IndexerError)
    ensures
        res matches IndexerError::Sqlx(message) && message@ == duplicate_key_text(),
{
    IndexerError::Sqlx("duplicate key value violates unique constraint".to_owned())
}

fn negative_limit() -> (res: IndexerError)
    ensures
        res matches IndexerError::Sqlx(message) && message@ == negative_limit_text(),
{
    IndexerError::Sqlx("LIMIT must not be negative".to_owned())
}

/// Whether one of the first `end` rows of `rows` has the key of `row`.
fn holds_validator(rows: &Vec<ValidatorRow>, end: usize, row: &ValidatorRow) -> (res: bool)
    requires
        end <= rows@.len(),
    ensures
        res == has_validator(views_of(rows@).take(end as int), row@),
{
    let ghost seen = views_of(rows@).take(end as int);
    let mut k: usize = 0;
    while k < end
        invariant
            k <= end <= rows@.len(),
            seen == views_of(rows@).take(end as int),
            forall|i: int| 0 <= i < k ==> !same_validator(#[trigger] seen[i], row@),
        decreases end - k,
    {
        if rows[k].block_height == row.block_height && rows[k].address == row.address {
            assert(same_validator(seen[k as int], row@));
            return true;
        }
        k += 1;
    }
    false
}

/// Whether one of the first `end` rows of `rows` has the key of `row`.
fn holds_peer(rows: &Vec<PeerInfo>, end: usize, row: &PeerInfo) -> (res: bool)
    requires
        end <= rows@.len(),
    ensures
        res == has_peer(views_of(rows@).take(end as int), row@),
{
    let ghost seen = views_of(rows@).take(end as int);
    let mut k: usize = 0;
    while k < end
        invariant
            k <= end <= rows@.len(),
            seen == views_of(rows@).take(end as int),
            forall|i: int| 0 <= i < k ==> !same_peer(#[trigger] seen[i], row@),
        decreases end - k,
    {
        if rows[k].block_height == row.block_height && rows[k].node_id == row.node_id {
            assert(same_peer(seen[k as int], row@));
            return true;
        }
        k += 1;
    }
    false
}

/// Whether a row of `rows` has the height `height`.
fn holds_height(rows: &Vec<BlockRow>, height: i64) -> (res: bool)
    ensures
        res == has_block(views_of(rows@), height as int),
{
    let mut k: usize = 0;
    while k < rows.len()
        invariant
            k <= rows.len(),
            forall|i: int| 0 <= i < k ==> (#[trigger] rows@[i]).block_height != height,
        decreases rows.len() - k,
    {
        if rows[k].block_height == height {
            assert(views_of(rows@)[k as int].block_height == height);
            return true;
        }
        k += 1;
    }
    assert(!has_block(views_of(rows@), height as int)) by {
        assert forall|i: int| 0 <= i < views_of(rows@).len() implies (#[trigger] views_of(
            rows@,
        )[i]).block_height != height by {
            assert(rows@[i].block_height != height);
        }
    }
    false
}

/// Whether one of the first `end` records of `batch` has the height
/// `height`.
fn batch_holds_height(batch: &[BlockInfo], end: usize, height: i64) -> (res: bool)
    requires
        end <= batch@.len(),
    ensures
        res == exists|i: int| 0 <= i < end && (#[trigger] batch@[i]).height == height,
{
    let mut k: usize = 0;
    while k < end
        invariant
            k <= end <= batch@.len(),
            forall|i: int| 0 <= i < k ==> (#[trigger] batch@[i]).height != height,
        decreases end - k,
    {
        if batch[k].height == height {
            return true;
        }
        k += 1;
    }
    false
}

/// Puts `row` into `rows` at the place that keeps the heights ascending.
fn insert_by_height(rows: &mut Vec<BlockRow>, row: BlockRow)
    requires
        heights_ascend(views_of(old(rows)@)),
        !has_block(views_of(old(rows)@), row.block_height as int),
    ensures
        heights_ascend(views_of(final(rows)@)),
        final(rows)@.len() == old(rows)@.len() + 1,
        forall|other: BlockRowView|
            views_of(final(rows)@).contains(other) <==> (views_of(old(rows)@).contains(other)
                || other == row@),
{
    let ghost before = views_of(rows@);
    let mut at: usize = 0;
    while at < rows.len() && rows[at].block_height < row.block_height
        invariant
            at <= rows.len(),
            forall|i: int| 0 <= i < at ==> (#[trigger] rows@[i]).block_height < row.block_height,
        decreases rows.len() - at,
    {
        at += 1;
    }
    proof {
        assert forall|i: int| at <= i < rows@.len() implies (#[trigger] rows@[i]).block_height
            > row.block_height by {
            assert(before[at as int].block_height == rows@[at as int].block_height);
            assert(before[i].block_height == rows@[i].block_height);
            assert(before[i].block_height != row.block_height);
        }
    }
    let ghost added = row@;
    rows.insert(at, row);
    proof {
        let after = views_of(rows@);
        assert(after.len() == before.len() + 1);
        assert forall|i: int| 0 <= i < after.len() implies #[trigger] after[i] == (if i < at {
            before[i]
        } else if i == at {
            added
        } else {
            before[i - 1]
        }) by {}
        assert forall|i: int, j: int| 0 <= i < j < after.len() implies after[i].block_height
            < after[j].block_height by {
            if i < at && j > at {
                assert(before[i].block_height < added.block_height);
                assert(before[j - 1] == views_of(old(rows)@)[j - 1]);
                assert(old(rows)@[j - 1].block_height > added.block_height);
            }
        }
        assert forall|other: BlockRowView|
            after.contains(other) <==> (before.contains(other) || other == added) by {
            if after.contains(other) {
                let i = choose|i: int| 0 <= i < after.len() && after[i] == other;
                if i < at {
                    assert(before[i] == other);
                } else if i > at {
                    assert(before[i - 1] == other);
                }
            }
            if before.contains(other) {
                let i = choose|i: int| 0 <= i < before.len() && before[i] == other;
                if i < at {
                    assert(after[i] == other);
                } else {
                    assert(after[i + 1] == other);
                }
            }
            if other == added {
                assert(after[at as int] == other);
            }
        }
    }
}

/// The store.
pub struct DB {
    blocks: Vec<BlockRow>,
    validators: Vec<ValidatorRow>,
    peers: Vec<PeerInfo>,
}

impl View for DB {
    type V = Tables;

    closed spec fn view(&self) -> Tables {
        Tables {
            blocks: views_of(self.blocks@),
            validators: views_of(self.validators@),
            peers: views_of(self.peers@),
        }
    }
}

impl DB {
    #[verifier::type_invariant]
    spec fn inv(&self) -> bool {
        self@.wf()
    }

    /// A store without rows.
    pub fn new() -> (res: DB)
        ensures
            res@ == Tables::empty(),
    {
        let db = DB { blocks: Vec::new(), validators: Vec::new(), peers: Vec::new() };
        assert(db@.blocks =~= Seq::empty());
        assert(db@.validators =~= Seq::empty());
        assert(db@.peers =~= Seq::empty());
        db
    }

    /// The rows of the table `blocks`, in ascending order of height.
    pub fn blocks(&self) -> (res: &Vec<BlockRow>)
        ensures
            self@.wf(),
            views_of(res@) == self@.blocks,
    {
        proof {
            use_type_invariant(self);
        }
        &self.blocks
    }

    /// The rows of the table `validators`, in the order they were stored.
    pub fn validators(&self) -> (res: &Vec<ValidatorRow>)
        ensures
            self@.wf(),
            views_of(res@) == self@.validators,
    {
        proof {
            use_type_invariant(self);
        }
        &self.validators
    }

    /// The rows of the table `peers`, in the order they were stored.
    pub fn peers(&self) -> (res: &Vec<PeerInfo>)
        ensures
            self@.wf(),
            views_of(res@) == self@.peers,
    {
        proof {
            use_type_invariant(self);
        }
        &self.peers
    }

    /// Store a set of blocks in the database.
    ///
    /// Fails, and stores nothing, when the batch would put a second row
    /// under a height.
    pub fn store_blocks(&mut self, blocks: &[BlockInfo]) -> (res: Result<(), IndexerError>)
        ensures
            old(self)@.wf(),
            final(self)@.wf(),
            res is Err <==> blocks_conflict(old(self)@.blocks, block_rows_of(blocks@)),
            res matches Err(error) ==> {
                &&& final(self)@ == old(self)@
                &&& error matches IndexerError::Sqlx(message) && message@ == duplicate_key_text()
            },
            res is Ok ==> blocks_added(old(self)@, block_rows_of(blocks@), final(self)@),
    {
        proof {
            use_type_invariant(&*self);
        }
        let ghost start = self@;
        let ghost table = self@.blocks;
        let ghost batch = block_rows_of(blocks@);
        let mut checked: usize = 0;
        while checked < blocks.len()
            invariant
                checked <= blocks@.len(),
                self@ == start,
                start.wf(),
                table == views_of(self.blocks@),
                batch == block_rows_of(blocks@),
                forall|i: int, j: int|
                    0 <= i < j < checked ==> batch[i].block_height != batch[j].block_height,
                forall|i: int| 0 <= i < checked ==> !has_block(table, (#[trigger] batch[i]).block_height),
            decreases blocks@.len() - checked,
        {
            let height: i64 = blocks[checked].height;
            assert(batch[checked as int].block_height == height);
            if holds_height(&self.blocks, height) {
                return Err(duplicate_key());
            }
            if batch_holds_height(blocks, checked, height) {
                proof {
                    let i = choose|i: int| 0 <= i < checked && (#[trigger] blocks@[i]).height == height;
                    assert(batch[i].block_height == batch[checked as int].block_height);
                }
                return Err(duplicate_key());
            }
            proof {
                assert forall|i: int| 0 <= i < checked implies batch[i].block_height
                    != batch[checked as int].block_height by {
                    assert(blocks@[i].height != height);
                }
            }
            checked += 1;
        }
        assert(!blocks_conflict(table, batch));
        let mut rows: Vec<BlockRow> = Vec::new();
        core::mem::swap(&mut rows, &mut self.blocks);
        let mut stored: usize = 0;
        while stored < blocks.len()
            invariant
                stored <= blocks@.len(),
                batch == block_rows_of(blocks@),
                heights_distinct(batch),
                heights_ascend(views_of(rows@)),
                rows@.len() == table.len() + stored,
                forall|row: BlockRowView|
                    #[trigger] views_of(rows@).contains(row) <==> (table.contains(row)
                        || batch.take(stored as int).contains(row)),
                forall|k: int|
                    stored <= k < batch.len() ==> !has_block(
                        views_of(rows@),
                        (#[trigger] batch[k]).block_height,
                    ),
            decreases blocks@.len() - stored,
        {
            let row = blocks[stored].row();
            let ghost before = views_of(rows@);
            assert(row@ == batch[stored as int]);
            insert_by_height(&mut rows, row);
            proof {
                let after = views_of(rows@);
                let done = batch.take(stored as int);
                let next = batch.take(stored + 1);
                assert(next =~= done.push(batch[stored as int]));
                assert forall|row: BlockRowView| #[trigger]
                    after.contains(row) <==> (table.contains(row) || next.contains(row)) by {
                    assert(before.contains(row) <==> (table.contains(row) || done.contains(row)));
                    assert(after.contains(row) <==> (before.contains(row) || row
                        == batch[stored as int]));
                    if done.contains(row) {
                        let k = choose|k: int| 0 <= k < done.len() && done[k] == row;
                        assert(next[k] == row);
                    }
                    if next.contains(row) {
                        let k = choose|k: int| 0 <= k < next.len() && next[k] == row;
                        if k < stored {
                            assert(done[k] == row);
                        }
                    }
                    if row == batch[stored as int] {
                        assert(next[stored as int] == row);
                    }
                }
                assert forall|k: int| stored + 1 <= k < batch.len() implies !has_block(
                    after,
                    (#[trigger] batch[k]).block_height,
                ) by {
                    if has_block(after, batch[k].block_height) {
                        let i = choose|i: int|
                            0 <= i < after.len() && (#[trigger] after[i]).block_height
                                == batch[k].block_height;
                        assert(after.contains(after[i]));
                        if after[i] == batch[stored as int] {
                            assert(batch[stored as int].block_height != batch[k].block_height);
                        } else {
                            assert(before.contains(after[i]));
                            let h = choose|h: int| 0 <= h < before.len() && before[h] == after[i];
                            assert(before[h].block_height == batch[k].block_height);
                            assert(has_block(before, batch[k].block_height));
                        }
                    }
                }
            }
            stored += 1;
        }
        self.blocks = rows;
        proof {
            assert(batch.take(stored as int) =~= batch);
            assert forall|row: BlockRowView|
                self@.blocks.contains(row) <==> (table.contains(row) || batch.contains(row)) by {
                assert(views_of(rows@).contains(row) <==> (table.contains(row) || batch.contains(
                    row,
                )));
            }
        }
        Ok(())
    }

    /// Store a set of validators in the database.
    ///
    /// Fails, and stores nothing, when the batch would put a second row
    /// under a height and address.
    pub fn store_validators(&mut self, validators: &[ValidatorInfo]) -> (res: Result<
        (),
        IndexerError,
    >)
        ensures
            old(self)@.wf(),
            final(self)@.wf(),
            res is Err <==> validators_conflict(
                old(self)@.validators,
                validator_rows_of(validators@),
            ),
            res matches Err(error) ==> {
                &&& final(self)@ == old(self)@
                &&& error matches IndexerError::Sqlx(message) && message@ == duplicate_key_text()
            },
            res is Ok ==> final(self)@ == (Tables {
                validators: old(self)@.validators + validator_rows_of(validators@),
                ..old(self)@
            }),
    {
        proof {
            use_type_invariant(&*self);
        }
        let ghost start = self@;
        let ghost table = self@.validators;
        let ghost batch = validator_rows_of(validators@);
        let mut rows: Vec<ValidatorRow> = Vec::new();
        let mut checked: usize = 0;
        while checked < validators.len()
            invariant
                checked <= validators@.len(),
                self@ == start,
                start.wf(),
                table == views_of(self.validators@),
                batch == validator_rows_of(validators@),
                views_of(rows@) == batch.take(checked as int),
                validators_distinct(batch.take(checked as int)),
                forall|i: int| 0 <= i < checked ==> !has_validator(table, #[trigger] batch[i]),
            decreases validators@.len() - checked,
        {
            let row = validators[checked].row();
            let ghost seen = batch.take(checked as int);
            assert(row@ == batch[checked as int]);
            assert(views_of(self.validators@).take(self.validators@.len() as int) =~= table);
            assert(views_of(rows@).take(rows@.len() as int) =~= seen);
            let stored = holds_validator(&self.validators, self.validators.len(), &row);
            let twice = holds_validator(&rows, rows.len(), &row);
            if stored || twice {
                proof {
                    if twice {
                        let i = choose|i: int|
                            0 <= i < seen.len() && same_validator(#[trigger] seen[i], row@);
                        assert(same_validator(batch[i], batch[checked as int]));
                    }
                }
                return Err(duplicate_key());
            }
            rows.push(row);
            proof {
                let next = batch.take(checked + 1);
                assert(views_of(rows@) =~= next);
                assert forall|i: int, j: int| 0 <= i < j < next.len() implies !same_validator(
                    next[i],
                    next[j],
                ) by {
                    if j < checked {
                        assert(!same_validator(seen[i], seen[j]));
                    } else {
                        assert(!same_validator(seen[i], batch[checked as int]));
                    }
                }
            }
            checked += 1;
        }
        proof {
            assert(batch.take(checked as int) =~= batch);
            let all = table + batch;
            assert forall|i: int, j: int| 0 <= i < j < all.len() implies !same_validator(
                all[i],
                all[j],
            ) by {
                if j < table.len() {
                    assert(!same_validator(table[i], table[j]));
                } else if i < table.len() {
                    assert(!has_validator(table, batch[j - table.len()]));
                    assert(!same_validator(table[i], batch[j - table.len()]));
                } else {
                    assert(!same_validator(batch[i - table.len()], batch[j - table.len()]));
                }
            }
        }
        let mut all: Vec<ValidatorRow> = Vec::new();
        core::mem::swap(&mut all, &mut self.validators);
        all.append(&mut rows);
        assert(views_of(all@) =~= table + batch);
        self.validators = all;
        Ok(())
    }

    /// Store network parameters in the database.
    ///
    /// Fails, and stores nothing, when the batch would put a second row
    /// under a height and node.
    pub fn store_network_infos(&mut self, peers: &[PeerInfo]) -> (res: Result<(), IndexerError>)
        ensures
            old(self)@.wf(),
            final(self)@.wf(),
            res is Err <==> peers_conflict(old(self)@.peers, views_of(peers@)),
            res matches Err(error) ==> {
                &&& final(self)@ == old(self)@
                &&& error matches IndexerError::Sqlx(message) && message@ == duplicate_key_text()
            },
            res is Ok ==> final(self)@ == (Tables {
                peers: old(self)@.peers + views_of(peers@),
                ..old(self)@
            }),
    {
        proof {
            use_type_invariant(&*self);
        }
        let ghost start = self@;
        let ghost table = self@.peers;
        let ghost batch = views_of(peers@);
        let mut rows: Vec<PeerInfo> = Vec::new();
        let mut checked: usize = 0;
        while checked < peers.len()
            invariant
                checked <= peers@.len(),
                self@ == start,
                start.wf(),
                table == views_of(self.peers@),
                batch == views_of(peers@),
                views_of(rows@) == batch.take(checked as int),
                peers_distinct(batch.take(checked as int)),
                forall|i: int| 0 <= i < checked ==> !has_peer(table, #[trigger] batch[i]),
            decreases peers@.len() - checked,
        {
            let row = peers[checked].duplicate();
            let ghost seen = batch.take(checked as int);
            assert(row@ == batch[checked as int]);
            assert(views_of(self.peers@).take(self.peers@.len() as int) =~= table);
            assert(views_of(rows@).take(rows@.len() as int) =~= seen);
            let stored = holds_peer(&self.peers, self.peers.len(), &row);
            let twice = holds_peer(&rows, rows.len(), &row);
            if stored || twice {
                proof {
                    if twice {
                        let i = choose|i: int| 0 <= i < seen.len() && same_peer(#[trigger] seen[i], row@);
                        assert(same_peer(batch[i], batch[checked as int]));
                    }
                }
                return Err(duplicate_key());
            }
            rows.push(row);
            proof {
                let next = batch.take(checked + 1);
                assert(views_of(rows@) =~= next);
                assert forall|i: int, j: int| 0 <= i < j < next.len() implies !same_peer(
                    next[i],
                    next[j],
                ) by {
                    if j < checked {
                        assert(!same_peer(seen[i], seen[j]));
                    } else {
                        assert(!same_peer(seen[i], batch[checked as int]));
                    }
                }
            }
            checked += 1;
        }
        proof {
            assert(batch.take(checked as int) =~= batch);
            let all = table + batch;
            assert forall|i: int, j: int| 0 <= i < j < all.len() implies !same_peer(
                all[i],
                all[j],
            ) by {
                if j < table.len() {
                    assert(!same_peer(table[i], table[j]));
                } else if i < table.len() {
                    assert(!has_peer(table, batch[j - table.len()]));
                    assert(!same_peer(table[i], batch[j - table.len()]));
                } else {
                    assert(!same_peer(batch[i - table.len()], batch[j - table.len()]));
                }
            }
        }
        let mut all: Vec<PeerInfo> = Vec::new();
        core::mem::swap(&mut all, &mut self.peers);
        all.append(&mut rows);
        assert(views_of(all@) =~= table + batch);
        self.peers = all;
        Ok(())
    }

    /// The heights of the blocks that `proposer_address` proposed, in
    /// ascending order.
    pub fn select_heights_by_proposer(&self, proposer_address: &String) -> (res: Vec<i64>)
        ensures
            self@.wf(),
            ints_of(res@) == heights_by_proposer(self@.blocks, proposer_address@),
    {
        proof {
            use_type_invariant(self);
        }
        let ghost rows = self@.blocks;
        let mut heights: Vec<i64> = Vec::new();
        let mut k: usize = 0;
        assert(rows.take(0) =~= Seq::empty());
        while k < self.blocks.len()
            invariant
                k <= self.blocks@.len(),
                rows == views_of(self.blocks@),
                ints_of(heights@) == heights_by_proposer(rows.take(k as int), proposer_address@),
            decreases self.blocks@.len() - k,
        {
            let ghost before = heights@;
            assert(rows.take(k + 1).drop_last() =~= rows.take(k as int));
            assert(rows.take(k + 1).last() == rows[k as int]);
            if self.blocks[k].proposer_address == *proposer_address {
                heights.push(self.blocks[k].block_height);
                assert(ints_of(heights@) =~= ints_of(before).push(rows[k as int].block_height));
            }
            k += 1;
        }
        assert(rows.take(k as int) =~= rows);
        heights
    }

    /// The transaction counts of the `last_blocks` blocks of greatest
    /// height, the greatest height first. A negative limit is an error.
    pub fn select_recent_num_txs(&self, last_blocks: i64) -> (res: Result<
        Vec<Option<i64>>,
        IndexerError,
    >)
        ensures
            self@.wf(),
            res is Err <==> last_blocks < 0,
            res matches Err(error) ==> error matches IndexerError::Sqlx(message) && message@
                == negative_limit_text(),
            res matches Ok(values) ==> {
                &&& num_txs_of(values@) == recent_num_txs(self@.blocks, last_blocks as int)
                &&& forall|i: int| 0 <= i < values@.len() ==> (#[trigger] values@[i]) is Some
            },
    {
        proof {
            use_type_invariant(self);
        }
        if last_blocks < 0 {
            return Err(negative_limit());
        }
        let ghost rows = self@.blocks;
        let count = self.blocks.len();
        let mut values: Vec<Option<i64>> = Vec::new();
        let mut taken: usize = 0;
        while taken < count && (taken as u64) < (last_blocks as u64)
            invariant
                0 <= last_blocks,
                taken <= count == self.blocks@.len(),
                taken <= last_blocks,
                rows == views_of(self.blocks@),
                values@.len() == taken,
                forall|i: int|
                    0 <= i < taken ==> (#[trigger] values@[i]) == Some(
                        self.blocks@[count - 1 - i].num_txs,
                    ),
            decreases count - taken,
        {
            values.push(Some(self.blocks[count - 1 - taken].num_txs));
            taken += 1;
        }
        assert(num_txs_of(values@) =~= recent_num_txs(rows, last_blocks as int));
        Ok(values)
    }

    /// Get the latest block height from the database: the greatest height
    /// of a stored block, 0 when none is stored.
    pub fn get_latest_block_height(&self) -> (res: i64)
        ensures
            self@.wf(),
            is_latest_height(self@.blocks, res as int),
    {
        proof {
            use_type_invariant(self);
        }
        let count = self.blocks.len();
        let max_height = if count == 0 {
            None
        } else {
            Some(self.blocks[count - 1].block_height)
        };
        proof {
            if count > 0 {
                let rows = self@.blocks;
                assert(rows[count - 1].block_height == self.blocks@[count - 1].block_height);
                assert forall|i: int| 0 <= i < rows.len() implies (#[trigger] rows[i]).block_height
                    <= rows[count - 1].block_height by {}
            }
        }
        checkpoint_of(max_height)
    }
}

} // verus!
