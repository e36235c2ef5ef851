use osmosis_indexer::data::{
    BlockInfo, BlockMeta, PeerInfo, PeerMeta, Timestamp, ValidatorInfo, ValidatorMeta,
};
use osmosis_indexer::db::DB;
use osmosis_indexer::error::IndexerError;
use osmosis_indexer::indexer::{Indexer, Request, CHUNK_SIZE};
use osmosis_indexer::utils::IndexerConfig;

fn indexer() -> Indexer {
    Indexer::new(IndexerConfig {
        rpc_url: "http://localhost:26657".to_string(),
        fetch_interval: 5,
    })
}

/// A chain that has produced the blocks 1 to `height`.
struct Chain {
    height: i64,
    validators_down_at: Vec<i64>,
}

impl Chain {
    fn blocks(&self, start: i64, end: i64) -> Option<Vec<BlockMeta>> {
        if start < 1 || end > self.height || start > end {
            return None;
        }
        Some(
            (start..=end)
                .rev()
                .map(|height| BlockMeta {
                    block_hash: vec![height as u8; 32],
                    block_size: 10,
                    height: height as u64,
                    time: Timestamp {
                        seconds: 1_683_000_000 + height,
                        nanos: 0,
                    },
                    proposer_address: vec![(height % 2) as u8; 20],
                    num_txs: height,
                })
                .collect(),
        )
    }

    fn validators(&self, height: i64) -> Option<Vec<ValidatorMeta>> {
        if height < 1 || height > self.height || self.validators_down_at.contains(&height) {
            return None;
        }
        Some(
            (0..3u8)
                .map(|n| ValidatorMeta {
                    address: vec![n; 20],
                    pub_key: vec![n; 32],
                    power: 100,
                    name: None,
                    proposer_priority: 0,
                })
                .collect(),
        )
    }

    fn peers(&self) -> Vec<PeerMeta> {
        vec![PeerMeta {
            node_id: "peer".to_string(),
            remote_ip: "10.0.0.1".to_string(),
            peer_score: 0,
        }]
    }
}

/// One poll cycle against `chain` and `db`; the requests that were sent.
fn cycle(indexer: &mut Indexer, start: i64, chain: &Chain, db: &mut DB) -> Vec<Request> {
    indexer
        .run(start, Ok(db.get_latest_block_height()))
        .unwrap();
    let requests = indexer.fetch_data(Some(chain.height));
    for request in &requests {
        match *request {
            Request::Blocks {
                start_height,
                end_height,
            } => {
                if let Some(metas) = chain.blocks(start_height, end_height) {
                    let infos = BlockInfo::from_metas(metas).unwrap();
                    let _ = db.store_blocks(&infos);
                }
            }
            Request::Validators { height } => {
                if let Some(metas) = chain.validators(height) {
                    let infos = ValidatorInfo::from_infos(metas, height).unwrap();
                    let _ = db.store_validators(&infos);
                }
            }
            Request::NetworkInfo { height } => {
                let infos = PeerInfo::from_infos(chain.peers(), height);
                let _ = db.store_network_infos(&infos);
            }
        }
    }
    requests
}

fn chunk_requests(start: i64, end: i64) -> Vec<Request> {
    let mut requests = vec![Request::Blocks {
        start_height: start,
        end_height: end,
    }];
    requests.extend((start..=end).map(|height| Request::Validators { height }));
    requests.extend((start..=end).map(|height| Request::NetworkInfo { height }));
    requests
}

#[test]
fn new_indexer_keeps_its_configuration() {
    let indexer = indexer();
    assert_eq!(indexer.rpc_url(), "http://localhost:26657");
    assert_eq!(indexer.fetch_interval(), 5);
    assert_eq!(indexer.current_height(), 0);
    assert_eq!(CHUNK_SIZE, 20);
}

#[test]
fn run_starts_after_the_checkpoint_or_at_the_start_height() {
    let mut indexer = indexer();
    assert_eq!(indexer.run(95, Ok(0)), Ok(()));
    assert_eq!(indexer.current_height(), 95);
    assert_eq!(indexer.run(95, Ok(93)), Ok(()));
    assert_eq!(indexer.current_height(), 95);
    assert_eq!(indexer.run(95, Ok(94)), Ok(()));
    assert_eq!(indexer.current_height(), 95);
    assert_eq!(indexer.run(95, Ok(95)), Ok(()));
    assert_eq!(indexer.current_height(), 96);
    assert_eq!(indexer.run(95, Ok(1000)), Ok(()));
    assert_eq!(indexer.current_height(), 1001);
    assert_eq!(indexer.run(1, Ok(i64::MAX - 1)), Ok(()));
    assert_eq!(indexer.current_height(), i64::MAX);
    assert_eq!(indexer.run(-7, Ok(-20)), Ok(()));
    assert_eq!(indexer.current_height(), -7);
}

#[test]
fn run_ends_when_the_checkpoint_cannot_be_read() {
    let mut indexer = indexer();
    indexer.run(95, Ok(99)).unwrap();
    let failure = IndexerError::Sqlx("pool timed out".to_string());
    assert_eq!(indexer.run(95, Err(failure.clone())), Err(failure));
    assert_eq!(indexer.current_height(), 100);
    assert_eq!(indexer.rpc_url(), "http://localhost:26657");
    assert_eq!(indexer.fetch_interval(), 5);
}

#[test]
fn fetch_data_has_nothing_to_do_when_the_chain_is_not_ahead() {
    let mut indexer = indexer();
    indexer.run(1, Ok(100)).unwrap();
    assert_eq!(indexer.fetch_data(Some(100)), Vec::new());
    assert_eq!(indexer.fetch_data(Some(3)), Vec::new());
    assert_eq!(indexer.fetch_data(None), Vec::new());
    assert_eq!(indexer.current_height(), 101);
    assert_eq!(indexer.fetch_data(Some(101)), chunk_requests(101, 101));
}

#[test]
fn fetch_data_gives_the_requests_of_one_short_chunk() {
    let mut indexer = indexer();
    indexer.run(95, Ok(0)).unwrap();
    let requests = indexer.fetch_data(Some(100));
    assert_eq!(requests.len(), 13);
    assert_eq!(requests, chunk_requests(95, 100));
    assert_eq!(indexer.current_height(), 95);
}

#[test]
fn fetch_data_cuts_chunks_of_twenty() {
    let mut indexer = indexer();
    indexer.run(1, Ok(0)).unwrap();
    let requests = indexer.fetch_data(Some(45));
    let mut expected = chunk_requests(1, 20);
    expected.extend(chunk_requests(21, 40));
    expected.extend(chunk_requests(41, 45));
    assert_eq!(requests, expected);
    let blocks: Vec<&Request> = requests
        .iter()
        .filter(|request| matches!(request, Request::Blocks { .. }))
        .collect();
    assert_eq!(blocks.len(), 3);
}

#[test]
fn fetch_data_leaves_out_heights_the_chain_cannot_have() {
    let mut indexer = indexer();
    indexer.run(-2, Ok(-10)).unwrap();
    assert_eq!(indexer.current_height(), -2);
    let requests = indexer.fetch_data(Some(1));
    let mut expected = vec![
        Request::Validators { height: 0 },
        Request::Validators { height: 1 },
    ];
    expected.extend((-2..=1).map(|height| Request::NetworkInfo { height }));
    assert_eq!(requests, expected);
}

#[test]
fn fetch_blocks_names_the_first_invalid_height() {
    let indexer = indexer();
    assert_eq!(
        indexer.fetch_blocks(1, 20),
        Ok(Request::Blocks {
            start_height: 1,
            end_height: 20
        })
    );
    assert_eq!(
        indexer.fetch_blocks(0, i64::MAX),
        Ok(Request::Blocks {
            start_height: 0,
            end_height: i64::MAX
        })
    );
    assert_eq!(
        indexer.fetch_blocks(-1, 20),
        Err(IndexerError::InvalidHeight(-1))
    );
    assert_eq!(
        indexer.fetch_blocks(3, -20),
        Err(IndexerError::InvalidHeight(-20))
    );
    assert_eq!(
        indexer.fetch_blocks(-3, -20),
        Err(IndexerError::InvalidHeight(-3))
    );
    assert_eq!(
        indexer.fetch_blocks(9, 2),
        Ok(Request::Blocks {
            start_height: 9,
            end_height: 2
        })
    );
}

#[test]
fn fetch_validators_asks_for_each_valid_height() {
    let indexer = indexer();
    assert_eq!(
        indexer.fetch_validators(&[5, -1, 0, 7, i64::MIN, 7]),
        vec![
            Request::Validators { height: 5 },
            Request::Validators { height: 0 },
            Request::Validators { height: 7 },
            Request::Validators { height: 7 },
        ]
    );
    assert_eq!(indexer.fetch_validators(&[]), Vec::new());
}

#[test]
fn fetch_network_info_asks_for_each_height() {
    let indexer = indexer();
    assert_eq!(
        indexer.fetch_network_info(&[5, -1, 5]),
        vec![
            Request::NetworkInfo { height: 5 },
            Request::NetworkInfo { height: -1 },
            Request::NetworkInfo { height: 5 },
        ]
    );
}

#[test]
fn run_from_95_on_a_chain_at_100_stores_95_to_100() {
    let chain = Chain {
        height: 100,
        validators_down_at: Vec::new(),
    };
    let mut db = DB::new();
    let mut indexer = indexer();
    let requests = cycle(&mut indexer, 95, &chain, &mut db);
    assert_eq!(requests, chunk_requests(95, 100));
    let stored: Vec<i64> = db.blocks().iter().map(|row| row.block_height).collect();
    assert_eq!(stored, vec![95, 96, 97, 98, 99, 100]);
    assert_eq!(db.get_latest_block_height(), 100);
    assert_eq!(db.validators().len(), 18);
    assert_eq!(db.peers().len(), 6);
    assert_eq!(db.blocks()[0].num_txs, 95);
    assert_eq!(db.blocks()[0].time, "2023-05-02T04:01:35Z");
    assert_eq!(db.blocks()[0].block_id, "5F".repeat(32));
    assert_eq!(db.blocks()[0].proposer_address, "01".repeat(20));

    let again = cycle(&mut indexer, 95, &chain, &mut db);
    assert_eq!(indexer.current_height(), 101);
    assert_eq!(again, Vec::new());
    assert_eq!(db.blocks().len(), 6);
}

#[test]
fn next_cycle_never_asks_for_a_stored_block_again() {
    let mut chain = Chain {
        height: 100,
        validators_down_at: vec![97, 98],
    };
    let mut db = DB::new();
    let mut indexer = indexer();
    cycle(&mut indexer, 95, &chain, &mut db);
    assert_eq!(db.get_latest_block_height(), 100);
    let with_validators: Vec<i64> = db
        .validators()
        .iter()
        .map(|row| row.block_height)
        .collect();
    assert!(!with_validators.contains(&97));
    assert!(!with_validators.contains(&98));
    assert!(with_validators.contains(&96));
    assert!(with_validators.contains(&99));

    chain.height = 103;
    chain.validators_down_at.clear();
    let requests = cycle(&mut indexer, 95, &chain, &mut db);
    assert_eq!(requests, chunk_requests(101, 103));
    assert_eq!(db.blocks().len(), 9);
    let with_validators: Vec<i64> = db
        .validators()
        .iter()
        .map(|row| row.block_height)
        .collect();
    assert!(!with_validators.contains(&97));

    let late = ValidatorInfo::from_infos(chain.validators(97).unwrap(), 97).unwrap();
    assert_eq!(db.store_validators(&late), Ok(()));
    assert_eq!(
        db.store_validators(&late),
        Err(IndexerError::Sqlx(
            "duplicate key value violates unique constraint".to_string()
        ))
    );
}

#[test]
fn start_height_is_a_floor_below_the_checkpoint() {
    let chain = Chain {
        height: 50,
        validators_down_at: Vec::new(),
    };
    let mut db = DB::new();
    let mut indexer = indexer();
    cycle(&mut indexer, 30, &chain, &mut db);
    assert_eq!(db.blocks().len(), 21);
    let requests = cycle(&mut indexer, 10, &chain, &mut db);
    assert_eq!(requests, Vec::new());
    assert_eq!(indexer.current_height(), 51);
    assert_eq!(db.blocks()[0].block_height, 30);
}
