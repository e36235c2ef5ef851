//! The two aggregate queries over the stored blocks.

use crate::chunks::ints_of;
use crate::db::DB;
use crate::tables::{heights_by_proposer, negative_limit_text, num_txs_of, recent_num_txs};
use crate::error::IndexerError;
use vstd::prelude::*;

verus! {

/// The sum of a sequence of numbers.
pub open spec fn sum(values: Seq<int>) -> int
    decreases values.len(),
{
    if values.len() == 0 {
        0
    } else {
        sum(values.drop_last()) + values.last()
    }
}

/// The sum of the transaction counts of a result set; a missing count adds
/// nothing.
pub fn total_transactions(num_txs: &[Option<i64>]) -> (res: i128)
    ensures
        res == sum(num_txs_of(num_txs@)),
{
    let ghost all = num_txs_of(num_txs@);
    let mut total: i128 = 0;
    let mut k: usize = 0;
    assert(all.take(0) =~= Seq::empty());
    while k < num_txs.len()
        invariant
            k <= num_txs@.len(),
            all == num_txs_of(num_txs@),
            total == sum(all.take(k as int)),
            -0x8000_0000_0000_0000 * k <= total <= 0x7fff_ffff_ffff_ffff * k,
        decreases num_txs@.len() - k,
    {
        assert(all.take(k + 1).drop_last() =~= all.take(k as int));
        assert(all.take(k + 1).last() == all[k as int]);
        let value: i64 = match num_txs[k] {
            Some(value) => value,
            None => 0,
        };
        total = total + value as i128;
        k += 1;
    }
    assert(all.take(k as int) =~= all);
    total
}

/// The heights of all blocks that the validator `proposer_address`
/// proposed, in ascending order.
pub fn validator_blocks(db: &DB, proposer_address: &String) -> (res: Vec<i64>)
    ensures
        ints_of(res@) == heights_by_proposer(db@.blocks, proposer_address@),
{
    db.select_heights_by_proposer(proposer_address)
}

/// Get the number of transactions in the last `last_blocks` blocks.
///
/// A negative number of blocks is an error.
pub fn transactions(db: &DB, last_blocks: i64) -> (res: Result<i128, IndexerError>)
    ensures
        res is Err <==> last_blocks < 0,
        res matches Err(error) ==> error matches IndexerError::Sqlx(message) && message@
            == negative_limit_text(),
        res matches Ok(total) ==> total == sum(recent_num_txs(db@.blocks, last_blocks as int)),
{
    match db.select_recent_num_txs(last_blocks) {
        Ok(values) => Ok(total_transactions(values.as_slice())),
        Err(error) => Err(error),
    }
}

} // verus!
