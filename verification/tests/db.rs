use osmosis_indexer::data::{BlockInfo, BlockRow, PeerInfo, ValidatorInfo};
use osmosis_indexer::db::{checkpoint_of, DB};
use osmosis_indexer::error::IndexerError;

fn block(height: i64, proposer: &str, num_txs: i64) -> BlockInfo {
    BlockInfo::new(
        format!("ID{height}"),
        height,
        100,
        "2023-05-02T04:00:00Z".to_string(),
        proposer.to_string(),
        num_txs,
    )
}

fn validator_at(height: i64, address: &str) -> ValidatorInfo {
    ValidatorInfo::new(
        address.to_string(),
        height,
        "KEY".to_string(),
        10,
        None,
        0,
    )
}

fn peer_at(height: i64, node_id: &str) -> PeerInfo {
    PeerInfo {
        block_height: height,
        node_id: node_id.to_string(),
        remote_ip: "127.0.0.1".to_string(),
        peer_score: 1,
    }
}

fn heights(db: &DB) -> Vec<i64> {
    db.blocks().iter().map(|row| row.block_height).collect()
}

fn duplicate_key() -> IndexerError {
    IndexerError::Sqlx("duplicate key value violates unique constraint".to_string())
}

#[test]
fn new_store_is_empty() {
    let db = DB::new();
    assert!(db.blocks().is_empty());
    assert!(db.validators().is_empty());
    assert!(db.peers().is_empty());
    assert_eq!(db.get_latest_block_height(), 0);
}

#[test]
fn checkpoint_is_the_greatest_height_or_zero() {
    assert_eq!(checkpoint_of(None), 0);
    assert_eq!(checkpoint_of(Some(100)), 100);
    assert_eq!(checkpoint_of(Some(-4)), -4);
}

#[test]
fn latest_height_is_the_greatest_stored_height() {
    let mut db = DB::new();
    db.store_blocks(&[block(7, "A", 1)]).unwrap();
    assert_eq!(db.get_latest_block_height(), 7);
    db.store_blocks(&[block(3, "A", 1), block(12, "B", 1)])
        .unwrap();
    assert_eq!(db.get_latest_block_height(), 12);
    db.store_blocks(&[block(5, "A", 1)]).unwrap();
    assert_eq!(db.get_latest_block_height(), 12);
}

#[test]
fn latest_height_does_not_depend_on_insertion_order() {
    let orders: [[i64; 4]; 4] = [[1, 2, 3, 4], [4, 3, 2, 1], [2, 4, 1, 3], [3, 1, 4, 2]];
    let mut tables: Vec<Vec<BlockRow>> = Vec::new();
    for order in orders {
        let mut db = DB::new();
        for height in order {
            db.store_blocks(&[block(height, "A", height)]).unwrap();
        }
        assert_eq!(db.get_latest_block_height(), 4);
        assert_eq!(heights(&db), vec![1, 2, 3, 4]);
        tables.push(db.blocks().clone());
    }
    let mut batched = DB::new();
    batched
        .store_blocks(&[block(3, "A", 3), block(1, "A", 1)])
        .unwrap();
    batched
        .store_blocks(&[block(4, "A", 4), block(2, "A", 2)])
        .unwrap();
    tables.push(batched.blocks().clone());
    for table in &tables {
        assert_eq!(table, &tables[0]);
    }
}

#[test]
fn latest_height_of_negative_heights_is_their_maximum() {
    let mut db = DB::new();
    db.store_blocks(&[block(-5, "A", 1), block(-9, "A", 1)])
        .unwrap();
    assert_eq!(db.get_latest_block_height(), -5);
    assert_eq!(heights(&db), vec![-9, -5]);
}

#[test]
fn store_blocks_keeps_the_row_of_each_record() {
    let mut db = DB::new();
    db.store_blocks(&[block(2, "B", 9), block(1, "A", 4)])
        .unwrap();
    assert_eq!(
        db.blocks(),
        &vec![
            BlockRow {
                block_height: 1,
                block_id: "ID1".to_string(),
                time: "2023-05-02T04:00:00Z".to_string(),
                num_txs: 4,
                proposer_address: "A".to_string(),
            },
            BlockRow {
                block_height: 2,
                block_id: "ID2".to_string(),
                time: "2023-05-02T04:00:00Z".to_string(),
                num_txs: 9,
                proposer_address: "B".to_string(),
            },
        ]
    );
}

#[test]
fn second_insert_of_a_height_fails_and_changes_nothing() {
    let mut db = DB::new();
    db.store_blocks(&[block(5, "A", 3)]).unwrap();
    let before = db.blocks().clone();
    assert_eq!(db.store_blocks(&[block(5, "A", 3)]), Err(duplicate_key()));
    assert_eq!(db.blocks(), &before);
    assert_eq!(db.store_blocks(&[block(5, "B", 77)]), Err(duplicate_key()));
    assert_eq!(db.blocks(), &before);
    assert_eq!(db.blocks()[0].proposer_address, "A");
    assert_eq!(db.blocks()[0].num_txs, 3);
    assert_eq!(db.get_latest_block_height(), 5);
}

#[test]
fn batch_with_one_stored_height_is_refused_whole() {
    let mut db = DB::new();
    db.store_blocks(&[block(10, "A", 1), block(11, "A", 1)])
        .unwrap();
    let overlapping = [block(11, "A", 1), block(12, "A", 1), block(13, "A", 1)];
    assert_eq!(db.store_blocks(&overlapping), Err(duplicate_key()));
    assert_eq!(heights(&db), vec![10, 11]);
    let last = [block(12, "A", 1), block(13, "A", 1), block(10, "A", 1)];
    assert_eq!(db.store_blocks(&last), Err(duplicate_key()));
    assert_eq!(heights(&db), vec![10, 11]);
    db.store_blocks(&[block(12, "A", 1), block(13, "A", 1)])
        .unwrap();
    assert_eq!(heights(&db), vec![10, 11, 12, 13]);
}

#[test]
fn batch_with_a_height_twice_is_refused() {
    let mut db = DB::new();
    assert_eq!(
        db.store_blocks(&[block(1, "A", 1), block(2, "A", 1), block(1, "B", 1)]),
        Err(duplicate_key())
    );
    assert!(db.blocks().is_empty());
    assert_eq!(db.get_latest_block_height(), 0);
}

#[test]
fn empty_batches_are_stored() {
    let mut db = DB::new();
    db.store_blocks(&[block(1, "A", 1)]).unwrap();
    assert_eq!(db.store_blocks(&[]), Ok(()));
    assert_eq!(db.store_validators(&[]), Ok(()));
    assert_eq!(db.store_network_infos(&[]), Ok(()));
    assert_eq!(heights(&db), vec![1]);
    assert!(db.validators().is_empty());
    assert!(db.peers().is_empty());
}

#[test]
fn overlapping_chunks_leave_one_row_per_height() {
    let chunk: Vec<BlockInfo> = (95..=100).map(|height| block(height, "A", 1)).collect();
    let later: Vec<BlockInfo> = (98..=105).map(|height| block(height, "A", 1)).collect();
    for first_wins in [true, false] {
        let mut db = DB::new();
        let (first, second) = if first_wins {
            (&chunk, &later)
        } else {
            (&later, &chunk)
        };
        assert_eq!(db.store_blocks(first), Ok(()));
        assert_eq!(db.store_blocks(second), Err(duplicate_key()));
        assert_eq!(db.store_blocks(first), Err(duplicate_key()));
        let stored = heights(&db);
        let expected: Vec<i64> = first.iter().map(|info| info.height).collect();
        assert_eq!(stored, expected);
    }
}

#[test]
fn store_validators_appends_rows_in_order() {
    let mut db = DB::new();
    db.store_validators(&[validator_at(5, "B"), validator_at(5, "A")])
        .unwrap();
    db.store_validators(&[validator_at(4, "B")]).unwrap();
    let keys: Vec<(i64, String)> = db
        .validators()
        .iter()
        .map(|row| (row.block_height, row.address.clone()))
        .collect();
    assert_eq!(
        keys,
        vec![
            (5, "B".to_string()),
            (5, "A".to_string()),
            (4, "B".to_string())
        ]
    );
    assert!(db.blocks().is_empty());
    assert_eq!(db.get_latest_block_height(), 0);
}

#[test]
fn store_validators_refuses_a_second_row_for_a_key() {
    let mut db = DB::new();
    db.store_validators(&[validator_at(5, "A"), validator_at(5, "B")])
        .unwrap();
    let before = db.validators().clone();
    assert_eq!(
        db.store_validators(&[validator_at(6, "A"), validator_at(5, "B")]),
        Err(duplicate_key())
    );
    assert_eq!(db.validators(), &before);
    assert_eq!(
        db.store_validators(&[validator_at(7, "A"), validator_at(7, "A")]),
        Err(duplicate_key())
    );
    assert_eq!(db.validators(), &before);
    assert_eq!(
        db.store_validators(&[validator_at(6, "A"), validator_at(6, "B")]),
        Ok(())
    );
    assert_eq!(db.validators().len(), 4);
}

#[test]
fn validators_are_stored_whether_or_not_the_block_is() {
    let mut db = DB::new();
    db.store_blocks(&[block(5, "A", 1)]).unwrap();
    assert_eq!(db.store_validators(&[validator_at(5, "A")]), Ok(()));
    assert_eq!(db.store_validators(&[validator_at(6, "A")]), Ok(()));
    assert_eq!(db.store_blocks(&[block(5, "A", 1)]), Err(duplicate_key()));
    assert_eq!(db.store_validators(&[validator_at(7, "A")]), Ok(()));
    assert_eq!(db.validators().len(), 3);
    assert_eq!(heights(&db), vec![5]);
}

#[test]
fn store_network_infos_refuses_a_second_row_for_a_key() {
    let mut db = DB::new();
    db.store_network_infos(&[peer_at(5, "n1"), peer_at(5, "n2")])
        .unwrap();
    db.store_network_infos(&[peer_at(6, "n1")]).unwrap();
    let before = db.peers().clone();
    assert_eq!(
        db.store_network_infos(&[peer_at(7, "n1"), peer_at(6, "n1")]),
        Err(duplicate_key())
    );
    assert_eq!(
        db.store_network_infos(&[peer_at(8, "n3"), peer_at(8, "n3")]),
        Err(duplicate_key())
    );
    assert_eq!(db.peers(), &before);
    assert_eq!(
        db.peers(),
        &vec![peer_at(5, "n1"), peer_at(5, "n2"), peer_at(6, "n1")]
    );
}

#[test]
fn heights_by_proposer_ascend() {
    let mut db = DB::new();
    db.store_blocks(&[block(3, "addrA", 1), block(2, "addrB", 1), block(1, "addrA", 1)])
        .unwrap();
    assert_eq!(
        db.select_heights_by_proposer(&"addrA".to_string()),
        vec![1, 3]
    );
    assert_eq!(db.select_heights_by_proposer(&"addrB".to_string()), vec![2]);
    assert_eq!(
        db.select_heights_by_proposer(&"addrC".to_string()),
        Vec::<i64>::new()
    );
}

#[test]
fn recent_num_txs_come_greatest_height_first() {
    let mut db = DB::new();
    db.store_blocks(&[block(3, "A", 100), block(5, "A", 3), block(4, "A", 7)])
        .unwrap();
    assert_eq!(db.select_recent_num_txs(0), Ok(Vec::new()));
    assert_eq!(db.select_recent_num_txs(1), Ok(vec![Some(3)]));
    assert_eq!(db.select_recent_num_txs(2), Ok(vec![Some(3), Some(7)]));
    assert_eq!(
        db.select_recent_num_txs(3),
        Ok(vec![Some(3), Some(7), Some(100)])
    );
    assert_eq!(
        db.select_recent_num_txs(i64::MAX),
        Ok(vec![Some(3), Some(7), Some(100)])
    );
    assert_eq!(
        db.select_recent_num_txs(-1),
        Err(IndexerError::Sqlx("LIMIT must not be negative".to_string()))
    );
}
